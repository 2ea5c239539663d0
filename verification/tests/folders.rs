use pm_store::error::StoreError;
use pm_store::store::Workspace;

fn ws_with_doc() -> (Workspace, String, String, String) {
    let mut w = Workspace::new();
    let a = w
        .create_folder("proj", "A", None, None, 1000)
        .unwrap();
    let b = w
        .create_folder("proj", "B", Some(a.id.clone()), None, 1001)
        .unwrap();
    let doc = w
        .create_context_document("proj", "notes", "text", "hello", None, false, 1002)
        .unwrap();
    w.move_item_to_folder(&doc.id, "context_doc", Some(b.id.clone()))
        .unwrap();
    (w, a.id, b.id, doc.id)
}

#[test]
fn create_folder_defaults() {
    let mut w = Workspace::new();
    let f = w.create_folder("proj", "Inbox", None, None, 1000).unwrap();
    assert_eq!(f.id.len(), 36);
    assert_eq!(f.sort_order, 0);
    assert_eq!(f.parent_id, None);
}

#[test]
fn create_folder_under_missing_parent_fails() {
    let mut w = Workspace::new();
    let r = w.create_folder("proj", "Child", Some("ghost".to_string()), None, 1000);
    assert_eq!(r.unwrap_err(), StoreError::NotFound);
}

#[test]
fn list_folders_is_scoped_and_ordered_by_name() {
    let mut w = Workspace::new();
    w.create_folder("p1", "Zeta", None, None, 1000).unwrap();
    w.create_folder("p1", "Alpha", None, None, 1001).unwrap();
    w.create_folder("p2", "Other", None, None, 1002).unwrap();
    let names: Vec<String> = w.list_folders("p1").into_iter().map(|f| f.name).collect();
    assert_eq!(names, vec!["Alpha", "Zeta"]);
}

#[test]
fn update_folder_sentinel_clears_parent() {
    let (mut w, a, b, _) = ws_with_doc();
    let row = w
        .update_folder(&b, None, Some("__null__".to_string()), None, None, 2000)
        .unwrap();
    assert_eq!(row.parent_id, None);
    let row = w
        .update_folder(&b, None, Some(a.clone()), None, None, 2001)
        .unwrap();
    assert_eq!(row.parent_id, Some(a));
}

#[test]
fn update_folder_rejects_cycle() {
    let (mut w, a, b, _) = ws_with_doc();
    // moving A under its own child B would make A its own ancestor
    let r = w.update_folder(&a, None, Some(b.clone()), None, None, 2000);
    assert_eq!(r.unwrap_err(), StoreError::CycleDetected);
    // and a folder can never become its own parent
    let r = w.update_folder(&a, None, Some(a.clone()), None, None, 2001);
    assert_eq!(r.unwrap_err(), StoreError::CycleDetected);
}

#[test]
fn delete_folder_detaches_items_and_removes_subtree() {
    let (mut w, a, b, doc) = ws_with_doc();
    w.delete_folder(&a).unwrap();
    assert!(w.get_folder(&a).is_none());
    assert!(w.get_folder(&b).is_none());
    let d = w.get_context_document(&doc).unwrap();
    assert_eq!(d.folder_id, None);
    assert_eq!(d.content, "hello");
}

#[test]
fn delete_folder_detaches_every_item_and_deletes_none() {
    let mut w = Workspace::new();
    let f = w.create_folder("proj", "Box", None, None, 1000).unwrap();
    let mut doc_ids = Vec::new();
    for i in 0..4 {
        let d = w
            .create_context_document("proj", &format!("doc{}", i), "text", "x", None, false, 1000)
            .unwrap();
        w.move_item_to_folder(&d.id, "context_doc", Some(f.id.clone()))
            .unwrap();
        doc_ids.push(d.id);
    }
    let o = w
        .create_framework_output("proj", "swot", "strategy", "out", "p", "[]", "c", "markdown", 1001)
        .unwrap();
    w.move_item_to_folder(&o.id, "framework_output", Some(f.id.clone()))
        .unwrap();
    w.delete_folder(&f.id).unwrap();
    for id in &doc_ids {
        let d = w.get_context_document(id).unwrap();
        assert_eq!(d.folder_id, None);
    }
    let o2 = w.get_framework_output(&o.id).unwrap();
    assert_eq!(o2.folder_id, None);
    assert_eq!(w.list_context_documents("proj").len(), 4);
    assert_eq!(w.list_framework_outputs("proj").len(), 1);
}

#[test]
fn delete_detaches_items_still_pointing_at_a_missing_folder() {
    let mut w = Workspace::new();
    let doc = w
        .create_context_document("proj", "stray", "text", "x", None, false, 1000)
        .unwrap();
    // file the document under an id no folder row carries
    w.move_item_to_folder(&doc.id, "context_doc", Some("gone".to_string()))
        .unwrap();
    w.delete_folder("gone").unwrap();
    assert_eq!(w.get_context_document(&doc.id).unwrap().folder_id, None);
}

#[test]
fn delete_unknown_folder_is_silent() {
    let mut w = Workspace::new();
    w.create_folder("proj", "Keep", None, None, 1000).unwrap();
    w.delete_folder("ghost").unwrap();
    assert_eq!(w.list_folders("proj").len(), 1);
}

#[test]
fn move_item_unknown_kind_is_rejected() {
    let (mut w, _, _, doc) = ws_with_doc();
    let r = w.move_item_to_folder(&doc, "note", None);
    assert_eq!(r.unwrap_err(), StoreError::InvalidItemKind);
}

#[test]
fn toggle_favorite_flips_the_right_table() {
    let (mut w, _, _, doc) = ws_with_doc();
    w.toggle_item_favorite(&doc, "context_doc", true).unwrap();
    assert!(w.get_context_document(&doc).unwrap().is_favorite);
    w.toggle_item_favorite(&doc, "context_doc", false).unwrap();
    assert!(!w.get_context_document(&doc).unwrap().is_favorite);
    assert_eq!(
        w.toggle_item_favorite(&doc, "bogus", true).unwrap_err(),
        StoreError::InvalidItemKind
    );
}

#[test]
fn set_folder_color_updates_only_color() {
    let (mut w, a, _, _) = ws_with_doc();
    w.set_folder_color(&a, Some("#ff0000".to_string()), 3000)
        .unwrap();
    let f = w.get_folder(&a).unwrap();
    assert_eq!(f.color, Some("#ff0000".to_string()));
    assert_eq!(f.updated_at, 3000);
    assert_eq!(f.name, "A");
}

#[test]
fn search_project_items_unions_kinds_sorted_by_name() {
    let mut w = Workspace::new();
    w.create_context_document("proj", "Zebra notes", "text", "x", None, false, 1000)
        .unwrap();
    w.create_framework_output(
        "proj", "swot", "strategy", "Apple output", "p", "[]", "c", "markdown", 1001,
    )
    .unwrap();
    w.create_context_document("other", "Zebra elsewhere", "text", "x", None, false, 1002)
        .unwrap();
    let hits = w.search_project_items("proj", "");
    assert_eq!(hits.len(), 2);
    assert_eq!(hits[0].name, "Apple output");
    assert_eq!(hits[0].item_type, "framework_output");
    assert_eq!(hits[0].category, Some("strategy".to_string()));
    assert_eq!(hits[0].doc_type, None);
    assert_eq!(hits[1].name, "Zebra notes");
    assert_eq!(hits[1].item_type, "context_doc");
    assert_eq!(hits[1].doc_type, Some("text".to_string()));
}

#[test]
fn search_project_items_matches_tags_case_insensitively() {
    let mut w = Workspace::new();
    let d = w
        .create_context_document("proj", "plain", "text", "x", None, false, 1000)
        .unwrap();
    // tags stay the empty list on creation, so only the name can match
    assert_eq!(w.search_project_items("proj", "PLAIN").len(), 1);
    assert_eq!(w.search_project_items("proj", "missing").len(), 0);
    let _ = d;
}

#[test]
fn context_document_records_byte_size() {
    let mut w = Workspace::new();
    let d = w
        .create_context_document("proj", "doc", "text", "hello", None, false, 1000)
        .unwrap();
    assert_eq!(d.size_bytes, 5);
    assert_eq!(d.tags, "[]");
    // updating the name never recomputes the stored size
    let d2 = w.update_context_document(&d.id, "doc2", true).unwrap();
    assert_eq!(d2.size_bytes, 5);
    assert!(d2.is_global);
}

#[test]
fn framework_output_update_refreshes_timestamp() {
    let mut w = Workspace::new();
    let o = w
        .create_framework_output("proj", "swot", "strategy", "out", "p", "[]", "c", "markdown", 1000)
        .unwrap();
    let o2 = w
        .update_framework_output(&o.id, "renamed", "new content", 2000)
        .unwrap();
    assert_eq!(o2.name, "renamed");
    assert_eq!(o2.generated_content, "new content");
    assert_eq!(o2.updated_at, 2000);
    assert_eq!(o2.created_at, 1000);
}

#[test]
fn list_documents_orders_newest_first_within_sort_order() {
    let mut w = Workspace::new();
    w.create_context_document("proj", "first", "text", "x", None, false, 1000)
        .unwrap();
    w.create_context_document("proj", "second", "text", "x", None, false, 2000)
        .unwrap();
    let names: Vec<String> = w
        .list_context_documents("proj")
        .into_iter()
        .map(|d| d.name)
        .collect();
    assert_eq!(names, vec!["second", "first"]);
}

#[test]
fn two_creates_draw_distinct_ids() {
    let mut w = Workspace::new();
    let a = w.create_folder("proj", "One", None, None, 1000).unwrap();
    let b = w.create_folder("proj", "Two", None, None, 1000).unwrap();
    assert_ne!(a.id, b.id);
}
