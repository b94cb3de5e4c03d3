use magic_cursor::history::{new_session_entry, new_session_id, now_iso, record_session, remove_session, SessionEntry};

fn entry(id: &str) -> SessionEntry {
    SessionEntry {
        id: id.to_string(),
        timestamp: "t".to_string(),
        content_type: "text".to_string(),
        context_preview: String::new(),
        query: "q".to_string(),
        response: "r".to_string(),
        tool_calls: vec![],
    }
}

fn ids(h: &[SessionEntry]) -> Vec<&str> {
    h.iter().map(|e| e.id.as_str()).collect()
}

#[test]
fn history_newest_first_and_bounded() {
    let mut h = Vec::new();
    record_session(&mut h, entry("a"), 2);
    record_session(&mut h, entry("b"), 2);
    assert_eq!(ids(&h), vec!["b", "a"]);
    record_session(&mut h, entry("c"), 2);
    assert_eq!(ids(&h), vec!["c", "b"]);
    record_session(&mut h, entry("d"), 0);
    assert!(h.is_empty());
}

#[test]
fn history_remove_by_id() {
    let mut h = vec![entry("a"), entry("b"), entry("a"), entry("c")];
    remove_session(&mut h, "a");
    assert_eq!(ids(&h), vec!["b", "c"]);
    remove_session(&mut h, "zzz");
    assert_eq!(ids(&h), vec!["b", "c"]);
    remove_session(&mut h, "c");
    assert_eq!(ids(&h), vec!["b"]);
}

#[test]
fn history_session_ids() {
    let a = new_session_id();
    let b = new_session_id();
    assert_eq!(a.len(), 36);
    assert_eq!(a.as_bytes()[8], b'-');
    assert_eq!(a.as_bytes()[14], b'4');
    assert_ne!(a, b);
    assert!(now_iso().contains('T'));
}

#[test]
fn history_new_entry() {
    let e = new_session_entry("code".into(), "ctx".into(), "what".into(), "answer".into());
    assert_eq!(e.content_type, "code");
    assert_eq!(e.context_preview, "ctx");
    assert_eq!(e.query, "what");
    assert_eq!(e.response, "answer");
    assert!(e.tool_calls.is_empty());
    assert_eq!(e.id.len(), 36);
}
