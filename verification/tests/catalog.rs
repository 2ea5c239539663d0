use pm_store::error::StoreError;
use pm_store::rows::{SeedCategory, SeedDef};
use pm_store::store::Workspace;

fn seed_categories() -> Vec<SeedCategory> {
    vec![
        SeedCategory {
            id: "strategy".to_string(),
            name: "Strategy".to_string(),
            description: "Strategic frameworks".to_string(),
            icon: "compass".to_string(),
        },
        SeedCategory {
            id: "discovery".to_string(),
            name: "Discovery".to_string(),
            description: "Discovery frameworks".to_string(),
            icon: "search".to_string(),
        },
    ]
}

fn seed_defs() -> Vec<SeedDef> {
    vec![
        SeedDef {
            id: "swot".to_string(),
            category: "strategy".to_string(),
            name: "SWOT".to_string(),
            description: "Strengths and weaknesses".to_string(),
            icon: "grid".to_string(),
            example_output: "example".to_string(),
            system_prompt: "You analyse SWOT.".to_string(),
            guiding_questions: "[\"What are the strengths?\"]".to_string(),
            supports_visuals: false,
            visual_instructions: None,
        },
        SeedDef {
            id: "jtbd".to_string(),
            category: "discovery".to_string(),
            name: "Jobs To Be Done".to_string(),
            description: "Customer jobs".to_string(),
            icon: "briefcase".to_string(),
            example_output: "jobs example".to_string(),
            system_prompt: "You analyse jobs.".to_string(),
            guiding_questions: "[]".to_string(),
            supports_visuals: true,
            visual_instructions: Some("Draw a map".to_string()),
        },
    ]
}

fn seeded_workspace() -> Workspace {
    let mut w = Workspace::new();
    w.seed_frameworks(&seed_categories(), &seed_defs(), 1000);
    w
}

#[test]
fn seed_populates_categories_in_order() {
    let w = seeded_workspace();
    let cats = w.list_framework_categories();
    assert_eq!(cats.len(), 2);
    assert_eq!(cats[0].id, "strategy");
    assert_eq!(cats[0].sort_order, 0);
    assert!(cats[0].is_builtin);
    assert_eq!(cats[1].id, "discovery");
    assert_eq!(cats[1].sort_order, 1);
}

#[test]
fn seed_populates_defs() {
    let w = seeded_workspace();
    let defs = w.list_framework_defs(None);
    assert_eq!(defs.len(), 2);
    let swot = w.get_framework_def("swot").unwrap();
    assert_eq!(swot.name, "SWOT");
    assert_eq!(swot.system_prompt, "You analyse SWOT.");
    assert!(swot.is_builtin);
}

#[test]
fn seeding_twice_changes_nothing() {
    let mut w = seeded_workspace();
    w.seed_frameworks(&seed_categories(), &seed_defs(), 2000);
    let cats = w.list_framework_categories();
    let defs = w.list_framework_defs(None);
    assert_eq!(cats.len(), 2);
    assert_eq!(defs.len(), 2);
    // timestamps still from the first run: nothing was re-inserted
    assert_eq!(cats[0].created_at, 1000);
    assert_eq!(defs[0].created_at, 1000);
}

#[test]
fn reseed_never_reverts_a_user_edit() {
    let mut w = seeded_workspace();
    w.update_framework_def(
        "swot",
        None,
        None,
        None,
        None,
        Some("Edited prompt".to_string()),
        None,
        None,
        None,
        None,
        1500,
    )
    .unwrap();
    w.seed_frameworks(&seed_categories(), &seed_defs(), 2000);
    let swot = w.get_framework_def("swot").unwrap();
    assert_eq!(swot.system_prompt, "Edited prompt");
}

#[test]
fn create_category_slugifies_name() {
    let mut w = seeded_workspace();
    let cat = w
        .create_framework_category("Growth Plans", "growth", "chart", 3000)
        .unwrap();
    assert_eq!(cat.id, "growth-plans");
    assert!(!cat.is_builtin);
    assert_eq!(cat.sort_order, 2);
}

#[test]
fn create_category_rejects_colliding_slug() {
    let mut w = seeded_workspace();
    let r = w.create_framework_category("Strategy", "again", "icon", 3000);
    assert_eq!(r.unwrap_err(), StoreError::DuplicateId);
}

#[test]
fn delete_builtin_category_is_protected() {
    let mut w = seeded_workspace();
    let r = w.delete_framework_category("strategy");
    assert_eq!(r.unwrap_err(), StoreError::ProtectedEntity);
    assert!(w.get_framework_category("strategy").is_some());
}

#[test]
fn category_delete_scenario_growth() {
    let mut w = seeded_workspace();
    w.create_framework_category("Growth", "growth", "chart", 3000)
        .unwrap();
    w.create_framework_def(
        "growth",
        "North Star",
        "metric",
        "star",
        "prompt",
        "[]",
        "example",
        false,
        None,
        3100,
    )
    .unwrap();
    let r = w.delete_framework_category("growth");
    assert_eq!(r.unwrap_err(), StoreError::CatalogNotEmpty);
    w.delete_framework_def("north-star").unwrap();
    w.delete_framework_category("growth").unwrap();
    assert!(w.get_framework_category("growth").is_none());
}

#[test]
fn delete_missing_category_is_not_found() {
    let mut w = seeded_workspace();
    assert_eq!(
        w.delete_framework_category("nope").unwrap_err(),
        StoreError::NotFound
    );
}

#[test]
fn update_category_keeps_builtin_flag_and_order() {
    let mut w = seeded_workspace();
    let cat = w
        .update_framework_category("strategy", "Strategy!", "new desc", "map", 4000)
        .unwrap();
    assert_eq!(cat.name, "Strategy!");
    assert!(cat.is_builtin);
    assert_eq!(cat.sort_order, 0);
    assert_eq!(cat.updated_at, 4000);
    assert_eq!(cat.created_at, 1000);
}

#[test]
fn create_def_strips_parentheses_in_slug() {
    let mut w = seeded_workspace();
    let def = w
        .create_framework_def(
            "strategy",
            "Lean Canvas (v2)",
            "lean",
            "canvas",
            "prompt",
            "[]",
            "",
            false,
            None,
            5000,
        )
        .unwrap();
    assert_eq!(def.id, "lean-canvas-v2");
    assert!(!def.is_builtin);
}

#[test]
fn create_def_sort_order_is_per_category() {
    let mut w = seeded_workspace();
    // swot has sort_order 0 in strategy; jtbd has 1 but in discovery
    let def = w
        .create_framework_def(
            "strategy", "New One", "d", "i", "p", "[]", "", false, None, 5000,
        )
        .unwrap();
    assert_eq!(def.sort_order, 1);
}

#[test]
fn delete_builtin_def_is_protected_and_custom_def_deletes() {
    let mut w = seeded_workspace();
    assert_eq!(
        w.delete_framework_def("swot").unwrap_err(),
        StoreError::ProtectedEntity
    );
    let def = w
        .create_framework_def(
            "strategy", "Mine", "d", "i", "p", "[]", "", false, None, 5000,
        )
        .unwrap();
    w.delete_framework_def(&def.id).unwrap();
    assert!(w.get_framework_def("mine").is_none());
}

#[test]
fn reset_restores_content_and_keeps_structure() {
    let mut w = seeded_workspace();
    w.update_framework_def(
        "swot",
        Some("discovery".to_string()),
        Some("My SWOT".to_string()),
        None,
        None,
        Some("broken prompt".to_string()),
        Some("[\"other\"]".to_string()),
        Some("other example".to_string()),
        None,
        Some("draw".to_string()),
        6000,
    )
    .unwrap();
    let row = w.reset_framework_def("swot", &seed_defs(), 7000).unwrap();
    assert_eq!(row.system_prompt, "You analyse SWOT.");
    assert_eq!(row.guiding_questions, "[\"What are the strengths?\"]");
    assert_eq!(row.example_output, "example");
    assert_eq!(row.visual_instructions, None);
    // structural fields stay as the user last set them
    assert_eq!(row.category, "discovery");
    assert_eq!(row.name, "My SWOT");
    assert_eq!(row.updated_at, 7000);
}

#[test]
fn reset_of_custom_def_is_refused() {
    let mut w = seeded_workspace();
    let def = w
        .create_framework_def(
            "strategy", "Mine", "d", "i", "p", "[]", "", false, None, 5000,
        )
        .unwrap();
    assert_eq!(
        w.reset_framework_def(&def.id, &seed_defs(), 7000).unwrap_err(),
        StoreError::NotBuiltin
    );
}

#[test]
fn reset_without_matching_seed_fails() {
    let mut w = Workspace::new();
    // a builtin row whose id no bundled entry carries
    w.seed_frameworks(&seed_categories(), &seed_defs(), 1000);
    let r = w.reset_framework_def("swot", &Vec::new(), 7000);
    assert_eq!(r.unwrap_err(), StoreError::SeedNotFound);
}

#[test]
fn duplicate_def_always_custom_with_fresh_id() {
    let mut w = seeded_workspace();
    let copy = w
        .duplicate_framework_def("swot", "SWOT Copy", 8000)
        .unwrap();
    assert_eq!(copy.id, "swot-copy");
    assert_ne!(copy.id, "swot");
    assert!(!copy.is_builtin);
    assert_eq!(copy.system_prompt, "You analyse SWOT.");
    assert_eq!(copy.description, "Strengths and weaknesses");
    assert_eq!(copy.sort_order, 1);
    // the source row is untouched
    assert!(w.get_framework_def("swot").unwrap().is_builtin);
}

#[test]
fn duplicate_missing_def_is_not_found() {
    let mut w = seeded_workspace();
    assert_eq!(
        w.duplicate_framework_def("nope", "Copy", 8000).unwrap_err(),
        StoreError::NotFound
    );
}

#[test]
fn search_defs_is_case_insensitive_substring() {
    let w = seeded_workspace();
    let hits = w.search_framework_defs("swot");
    assert_eq!(hits.len(), 1);
    assert_eq!(hits[0].id, "swot");
    let hits = w.search_framework_defs("CUSTOMER");
    assert_eq!(hits.len(), 1);
    assert_eq!(hits[0].id, "jtbd");
    let hits = w.search_framework_defs("zzz");
    assert!(hits.is_empty());
}

#[test]
fn list_defs_filters_by_category_and_orders() {
    let mut w = seeded_workspace();
    w.create_framework_def(
        "strategy", "Another", "d", "i", "p", "[]", "", false, None, 5000,
    )
    .unwrap();
    let strategy = w.list_framework_defs(Some("strategy".to_string()));
    assert_eq!(strategy.len(), 2);
    assert!(strategy[0].sort_order <= strategy[1].sort_order);
    let all = w.list_framework_defs(None);
    assert_eq!(all.len(), 3);
}

#[test]
fn update_def_coalesces_omitted_fields() {
    let mut w = seeded_workspace();
    let row = w
        .update_framework_def(
            "swot",
            None,
            Some("Renamed".to_string()),
            None,
            None,
            None,
            None,
            None,
            None,
            None,
            9000,
        )
        .unwrap();
    assert_eq!(row.name, "Renamed");
    assert_eq!(row.description, "Strengths and weaknesses");
    assert_eq!(row.system_prompt, "You analyse SWOT.");
    assert_eq!(row.updated_at, 9000);
}
