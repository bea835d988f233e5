use drag_drop::drop_stage::{plan_drop, DragClassification, DropPlan};
use drag_drop::event::{
    enter_event, entered_reply, fallback_for, normalize_operation, updated_reply, DragDropEvent,
    DragOperation, Fallback, Position,
};
use drag_drop::json::{escape, paths_to_json};
use drag_drop::paths::collect_paths;
use drag_drop::payload::{internal_rewrites, Payload, Representation, PLAIN_TEXT_KIND, TIDDLER_KIND};

fn strings(v: &[&str]) -> Vec<String> {
    v.iter().map(|s| s.to_string()).collect()
}

fn file_list(v: &[&str]) -> Option<Vec<Vec<u8>>> {
    Some(v.iter().map(|s| s.as_bytes().to_vec()).collect())
}

#[test]
fn escape_backslash_and_quote() {
    assert_eq!(escape("a\\b\"c"), "a\\\\b\\\"c");
    assert_eq!(escape("plain/path.txt"), "plain/path.txt");
    assert_eq!(escape(""), "");
}

#[test]
fn escape_leaves_other_characters() {
    assert_eq!(escape("tab\there é"), "tab\there é");
}

#[test]
fn json_of_no_paths() {
    assert_eq!(paths_to_json(&Vec::new()), "[]");
}

#[test]
fn json_of_one_path() {
    assert_eq!(paths_to_json(&strings(&["/a.txt"])), "[\"/a.txt\"]");
}

#[test]
fn json_of_paths_with_both_escaped_characters() {
    let json = paths_to_json(&strings(&["C:\\x\"y", "/b/c.png"]));
    assert_eq!(json, "[\"C:\\\\x\\\"y\",\"/b/c.png\"]");
}

#[test]
fn collect_without_file_list_is_empty() {
    assert!(collect_paths(&None).is_empty());
}

#[test]
fn collect_keeps_order_and_duplicates() {
    let paths = collect_paths(&file_list(&["/a.txt", "/b/c.png", "/a.txt"]));
    assert_eq!(paths, strings(&["/a.txt", "/b/c.png", "/a.txt"]));
}

#[test]
fn collect_of_empty_file_list_is_empty() {
    assert!(collect_paths(&Some(Vec::new())).is_empty());
}

#[test]
fn collect_decodes_malformed_bytes_lossily() {
    let paths = collect_paths(&Some(vec![vec![0x2f, 0x66, 0xff, 0x67], "/é".as_bytes().to_vec()]));
    assert_eq!(paths, strings(&["/f\u{FFFD}g", "/é"]));
}

#[test]
fn external_two_files_enter() {
    let event = enter_event(&file_list(&["/a.txt", "/b/c.png"]), Position { x: 10, y: 10 });
    assert_eq!(
        event,
        DragDropEvent::Enter {
            paths: strings(&["/a.txt", "/b/c.png"]),
            position: Position { x: 10, y: 10 },
        }
    );
    // The listener answers false: the default handling runs and its answer stands.
    assert_eq!(fallback_for(false), Fallback::RunNative);
    assert_eq!(entered_reply(Some(DragOperation::Other(16))), DragOperation::Other(16));
}

#[test]
fn claimed_event_suppresses_default_handling() {
    assert_eq!(fallback_for(true), Fallback::Suppress);
    assert_eq!(entered_reply(None), DragOperation::Copy);
    assert_eq!(updated_reply(None), DragOperation::Copy);
}

#[test]
fn entered_keeps_native_refusal() {
    assert_eq!(entered_reply(Some(DragOperation::Refuse)), DragOperation::Refuse);
}

#[test]
fn updated_turns_refusal_into_copy() {
    assert_eq!(updated_reply(Some(DragOperation::Refuse)), DragOperation::Copy);
    assert_eq!(updated_reply(Some(DragOperation::Other(2))), DragOperation::Other(2));
    assert_eq!(updated_reply(Some(DragOperation::Copy)), DragOperation::Copy);
}

#[test]
fn normalize_operation_codes() {
    assert_eq!(normalize_operation(DragOperation::Refuse), DragOperation::Copy);
    assert_eq!(normalize_operation(DragOperation::Other(8)), DragOperation::Other(8));
}

#[test]
fn external_drop_with_paths_stores_them() {
    let plan = plan_drop(
        DragClassification::External,
        strings(&["/a.txt", "/b/c.png"]),
        Position { x: 1, y: 2 },
    );
    assert_eq!(
        plan,
        DropPlan::StorePaths { json: "[\"/a.txt\",\"/b/c.png\"]".to_string() }
    );
}

#[test]
fn external_plain_text_drop_notifies_listener() {
    let plan = plan_drop(DragClassification::External, Vec::new(), Position { x: 5, y: 7 });
    assert_eq!(
        plan,
        DropPlan::NotifyListener {
            event: DragDropEvent::Drop { paths: Vec::new(), position: Position { x: 5, y: 7 } },
        }
    );
}

#[test]
fn internal_drop_rewrites_payload() {
    let position = Position { x: 50, y: 250 };
    assert_eq!(
        plan_drop(DragClassification::Internal, Vec::new(), position),
        DropPlan::RewritePayload
    );
    assert_eq!(
        plan_drop(DragClassification::Internal, strings(&["/a.txt"]), position),
        DropPlan::RewritePayload
    );
}

#[test]
fn rewrites_only_for_supplied_texts() {
    assert!(internal_rewrites(None, None).is_empty());
    assert_eq!(
        internal_rewrites(Some("Title".to_string()), None),
        vec![Representation { kind: PLAIN_TEXT_KIND.to_string(), text: "Title".to_string() }]
    );
    assert_eq!(
        internal_rewrites(Some("Title".to_string()), Some("{\"title\":\"Title\"}".to_string())),
        vec![
            Representation { kind: PLAIN_TEXT_KIND.to_string(), text: "Title".to_string() },
            Representation {
                kind: TIDDLER_KIND.to_string(),
                text: "{\"title\":\"Title\"}".to_string(),
            },
        ]
    );
}

#[test]
fn payload_set_replaces_and_get_reads() {
    let mut p = Payload::new();
    let kind = "public.html".to_string();
    assert_eq!(p.get(&kind), None);
    p.set(kind.clone(), "<b>x</b>".to_string());
    p.set(kind.clone(), "<i>y</i>".to_string());
    assert_eq!(p.get(&kind), Some("<i>y</i>".to_string()));
}

#[test]
fn internal_tiddler_drop_end_to_end() {
    let mut payload = Payload::new();
    payload.set(PLAIN_TEXT_KIND.to_string(), "http://localhost/#Title".to_string());
    payload.set("public.html".to_string(), "<a>Title</a>".to_string());
    payload.set(TIDDLER_KIND.to_string(), "old".to_string());
    let plan = plan_drop(DragClassification::Internal, Vec::new(), Position { x: 50, y: 250 });
    assert_eq!(plan, DropPlan::RewritePayload);
    let writes = internal_rewrites(Some("Title".to_string()), None);
    payload.apply(&writes);
    assert_eq!(payload.get(&PLAIN_TEXT_KIND.to_string()), Some("Title".to_string()));
    assert_eq!(payload.get(&TIDDLER_KIND.to_string()), Some("old".to_string()));
    assert_eq!(payload.get(&"public.html".to_string()), Some("<a>Title</a>".to_string()));
}

#[test]
fn rewrite_with_nothing_supplied_leaves_payload() {
    let mut payload = Payload::new();
    payload.set(PLAIN_TEXT_KIND.to_string(), "keep".to_string());
    payload.apply(&internal_rewrites(None, None));
    assert_eq!(payload.get(&PLAIN_TEXT_KIND.to_string()), Some("keep".to_string()));
    assert_eq!(payload.get(&TIDDLER_KIND.to_string()), None);
}

#[test]
fn rewrite_adds_missing_tiddler_kind() {
    let mut payload = Payload::new();
    payload.apply(&internal_rewrites(None, Some("{}".to_string())));
    assert_eq!(payload.get(&TIDDLER_KIND.to_string()), Some("{}".to_string()));
    assert_eq!(payload.get(&PLAIN_TEXT_KIND.to_string()), None);
}
