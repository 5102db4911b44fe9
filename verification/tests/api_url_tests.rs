use todo_tui::api_error::ApiError;
use todo_tui::api_url::{api_url, api_url_with_query, check_base_url, events_query, snapshot_query};

fn segs(v: &[&str]) -> Vec<String> {
    v.iter().map(|s| s.to_string()).collect()
}

#[test]
fn paths_are_joined_and_encoded() {
    assert_eq!(api_url("http://localhost:8000", &segs(&["contexts", "a b", "todos"])).ok(), Some("http://localhost:8000/contexts/a%20b/todos".to_string()));
    assert!(matches!(api_url("not a url", &segs(&["x"])), Err(ApiError::Url(_))));
    match api_url("mailto:me@example.com", &segs(&["x"])) {
        Err(ApiError::Config(m)) => assert_eq!(m, "base_url cannot be a base"),
        _ => panic!("expected a config error"),
    }
    assert!(check_base_url("http://h").is_ok());
    assert!(matches!(check_base_url("::"), Err(ApiError::Url(_))));
}

#[test]
fn queries_are_appended() {
    let q = events_query(Some("work".to_string()), 50);
    assert_eq!(q, vec![("limit".to_string(), "50".to_string()), ("context".to_string(), "work".to_string())]);
    assert_eq!(events_query(None, 7).len(), 1);
    let url = api_url_with_query("http://h", &segs(&["snapshot"]), &snapshot_query("in box".into(), "plain".into())).ok();
    assert_eq!(url, Some("http://h/snapshot?context=in+box&format=plain".to_string()));
}
