use pm_store::error::StoreError;
use pm_store::rows::SeedPrompt;
use pm_store::store::Workspace;

fn seed_prompts() -> Vec<SeedPrompt> {
    vec![
        SeedPrompt {
            id: "one-pager".to_string(),
            name: "One Pager".to_string(),
            description: "A one page summary".to_string(),
            category: "prd".to_string(),
            prompt_text: "Write a one pager about {{topic}}".to_string(),
            variables: "[\"topic\"]".to_string(),
            framework_id: None,
        },
        SeedPrompt {
            id: "release-notes".to_string(),
            name: "Release Notes".to_string(),
            description: "Notes for a release".to_string(),
            category: "communication".to_string(),
            prompt_text: "Draft release notes".to_string(),
            variables: "[]".to_string(),
            framework_id: Some("changelog".to_string()),
        },
    ]
}

fn seeded() -> Workspace {
    let mut w = Workspace::new();
    w.seed_prompts(&seed_prompts(), 1000);
    w
}

#[test]
fn prompt_seed_is_idempotent() {
    let mut w = seeded();
    w.seed_prompts(&seed_prompts(), 2000);
    let all = w.list_saved_prompts(None, None);
    assert_eq!(all.len(), 2);
    assert_eq!(all.iter().find(|p| p.id == "one-pager").unwrap().created_at, 1000);
}

#[test]
fn create_prompt_gets_fresh_uuid_and_defaults() {
    let mut w = seeded();
    let p = w
        .create_saved_prompt("Mine", "desc", "prd", "text", "[]", None, 3000)
        .unwrap();
    assert_eq!(p.id.len(), 36);
    assert!(!p.is_builtin);
    assert!(!p.is_favorite);
    assert_eq!(p.usage_count, 0);
    // one-pager holds sort_order 0 in prd, so the new row gets 1
    assert_eq!(p.sort_order, 1);
}

#[test]
fn delete_builtin_prompt_is_protected() {
    let mut w = seeded();
    assert_eq!(
        w.delete_saved_prompt("one-pager").unwrap_err(),
        StoreError::ProtectedEntity
    );
    let p = w
        .create_saved_prompt("Mine", "d", "prd", "t", "[]", None, 3000)
        .unwrap();
    w.delete_saved_prompt(&p.id).unwrap();
    assert!(w.get_saved_prompt(&p.id).is_none());
}

#[test]
fn list_prompts_filters_by_category_and_framework() {
    let w = seeded();
    let prd = w.list_saved_prompts(Some("prd".to_string()), None);
    assert_eq!(prd.len(), 1);
    assert_eq!(prd[0].id, "one-pager");
    let by_fw = w.list_saved_prompts(None, Some("changelog".to_string()));
    assert_eq!(by_fw.len(), 1);
    assert_eq!(by_fw[0].id, "release-notes");
    let both = w.list_saved_prompts(Some("prd".to_string()), Some("changelog".to_string()));
    assert!(both.is_empty());
}

#[test]
fn search_prompts_orders_by_usage_then_name() {
    let mut w = Workspace::new();
    w.create_saved_prompt("Beta", "common", "general", "x", "[]", None, 1000)
        .unwrap();
    let alpha = w
        .create_saved_prompt("Alpha", "common", "general", "x", "[]", None, 1001)
        .unwrap();
    let gamma = w
        .create_saved_prompt("Gamma", "common", "general", "x", "[]", None, 1002)
        .unwrap();
    w.increment_prompt_usage(&gamma.id, 1100).unwrap();
    w.increment_prompt_usage(&gamma.id, 1101).unwrap();
    w.increment_prompt_usage(&alpha.id, 1102).unwrap();
    let hits: Vec<String> = w
        .search_saved_prompts("common")
        .into_iter()
        .map(|p| p.name)
        .collect();
    assert_eq!(hits, vec!["Gamma", "Alpha", "Beta"]);
}

#[test]
fn increment_usage_bumps_and_unknown_id_is_silent() {
    let mut w = seeded();
    w.increment_prompt_usage("one-pager", 4000).unwrap();
    let p = w.get_saved_prompt("one-pager").unwrap();
    assert_eq!(p.usage_count, 1);
    assert_eq!(p.updated_at, 4000);
    w.increment_prompt_usage("missing", 4001).unwrap();
    assert_eq!(w.list_saved_prompts(None, None).len(), 2);
}

#[test]
fn update_prompt_clears_framework_link_with_inner_none() {
    let mut w = seeded();
    let p = w
        .update_saved_prompt(
            "release-notes",
            None,
            None,
            None,
            None,
            None,
            Some(None),
            Some(true),
            5000,
        )
        .unwrap();
    assert_eq!(p.framework_id, None);
    assert!(p.is_favorite);
    assert_eq!(p.prompt_text, "Draft release notes");
}

#[test]
fn duplicate_prompt_copies_content_resets_counters() {
    let mut w = seeded();
    w.increment_prompt_usage("one-pager", 4000).unwrap();
    let copy = w
        .duplicate_saved_prompt("one-pager", "One Pager Copy", 6000)
        .unwrap();
    assert_ne!(copy.id, "one-pager");
    assert!(!copy.is_builtin);
    assert_eq!(copy.usage_count, 0);
    assert_eq!(copy.prompt_text, "Write a one pager about {{topic}}");
    assert_eq!(copy.category, "prd");
    assert_eq!(copy.name, "One Pager Copy");
}

#[test]
fn duplicate_missing_prompt_is_not_found() {
    let mut w = seeded();
    assert_eq!(
        w.duplicate_saved_prompt("nope", "Copy", 6000).unwrap_err(),
        StoreError::NotFound
    );
}

#[test]
fn search_prompts_matches_prompt_text_too() {
    let w = seeded();
    let hits = w.search_saved_prompts("release notes");
    assert_eq!(hits.len(), 1);
    assert_eq!(hits[0].id, "release-notes");
}
