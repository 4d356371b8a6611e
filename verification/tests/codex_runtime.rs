use midtown::codex_runtime::{CodexRouter, RequestMap, STDERR_LINES};
use midtown::json::Json;
use midtown::json_text::parse;

fn message(text: &str) -> Json {
    parse(text).unwrap()
}

#[test]
fn answers_go_to_whoever_asked() {
    let mut router = CodexRouter::new();
    router.register_session("a", None);
    router.register_session("b", None);
    let first = router.open_request("a");
    let second = router.open_request("b");
    assert_ne!(first, second);
    let answer = |id: u64| message(&format!(r#"{{"id": {id}, "result": {{}}}}"#));
    assert_eq!(router.dispatch_event(&answer(second)), Some("b".to_string()));
    assert_eq!(router.dispatch_event(&answer(first)), Some("a".to_string()));
    assert_eq!(router.dispatch_event(&answer(first)), None);
}

#[test]
fn events_of_a_thread_go_to_its_session() {
    let mut router = CodexRouter::new();
    router.register_session("a", Some("t-1"));
    let event = message(r#"{"method": "turn/completed", "params": {"thread": {"id": "t-1"}}}"#);
    assert_eq!(router.dispatch_event(&event), Some("a".to_string()));
    assert_eq!(router.route_token_for_thread("t-1"), Some("a".to_string()));
    assert_eq!(router.route_token_for_thread("t-2"), None);
    router.unregister_session("a");
    assert_eq!(router.dispatch_event(&event), None);
}

#[test]
fn an_answer_tells_the_thread_of_its_session() {
    let mut router = CodexRouter::new();
    router.register_session("a", None);
    let id = router.open_request("a");
    let answer = message(&format!(r#"{{"id": {id}, "result": {{"thread": {{"id": "t-9"}}}}}}"#));
    assert_eq!(router.dispatch_event(&answer), Some("a".to_string()));
    assert_eq!(router.route_token_for_thread("t-9"), Some("a".to_string()));
}

#[test]
fn cleared_requests_are_forgotten() {
    let mut router = CodexRouter::new();
    router.register_session("a", None);
    let id = router.open_request("a");
    router.clear_request(id);
    let answer = message(&format!(r#"{{"id": {id}, "result": {{}}}}"#));
    assert_eq!(router.dispatch_event(&answer), None);
    router.close();
}

#[test]
fn lines_of_errors_come_once() {
    let mut router = CodexRouter::new();
    router.push_stderr("before");
    let cursor = router.register_session("a", None);
    router.push_stderr("one");
    router.push_stderr("two");
    let (next, lines) = router.drain_stderr(cursor);
    assert_eq!(lines, ["one", "two"]);
    let (_, lines) = router.drain_stderr(next);
    assert!(lines.is_empty());
}

#[test]
fn only_the_latest_lines_are_kept() {
    let mut router = CodexRouter::new();
    let cursor = router.register_session("a", None);
    for i in 0..STDERR_LINES + 2 {
        router.push_stderr(&format!("{i}"));
    }
    let (_, lines) = router.drain_stderr(cursor);
    assert_eq!(lines.len(), STDERR_LINES);
    assert_eq!(lines[0], "2");
}

#[test]
fn requests_are_kept_by_number() {
    let mut map = RequestMap::new();
    map.insert(1, "a");
    map.insert(2, "b");
    map.insert(1, "c");
    assert_eq!(map.get(1), Some(&"c".to_string()));
    map.remove_token("c");
    assert_eq!(map.get(1), None);
    map.remove(2);
    assert_eq!(map.get(2), None);
}
