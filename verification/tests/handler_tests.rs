use chatbot_backend::handler::{extract_query_param, find_query_param, handle_404};

#[test]
fn not_found_reply() {
    let r = handle_404();
    assert_eq!(r.status, 404);
    assert_eq!(r.body.as_deref(), Some("Not Found"));
    assert!(r.headers.is_empty());
}

#[test]
fn query_parameter_is_decoded() {
    assert_eq!(extract_query_param("a=1&q=hello%20world", "q", "none"), "hello world");
    assert_eq!(extract_query_param("q=a+b", "q", "none"), "a b");
}

#[test]
fn missing_parameter_gives_default() {
    assert_eq!(extract_query_param("a=1", "q", "fallback"), "fallback");
    assert_eq!(extract_query_param("", "q", "fallback"), "fallback");
}

#[test]
fn first_occurrence_wins() {
    assert_eq!(extract_query_param("q=first&q=second", "q", "d"), "first");
}

#[test]
fn find_query_param_on_pairs() {
    let pairs = vec![("k".to_string(), "v".to_string()), ("x".to_string(), "y".to_string())];
    assert_eq!(find_query_param(&pairs, "x", "d"), "y");
    assert_eq!(find_query_param(&pairs, "z", "d"), "d");
    assert_eq!(find_query_param(&Vec::new(), "z", "d"), "d");
}
