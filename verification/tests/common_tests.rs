use chatbot_backend::common::{parse_path, validate_env_var};

#[test]
fn undefined_variable_is_refused() {
    let e = validate_env_var("AI_SECRET", None, "string").unwrap_err();
    assert_eq!(e.message, "AI_SECRET is not defined.");
}

#[test]
fn blank_variable_is_refused() {
    let e = validate_env_var("AI_SECRET", Some(" \t\n "), "string").unwrap_err();
    assert_eq!(e.message, "AI_SECRET is empty.");
    let e = validate_env_var("AI_SECRET", Some(""), "string").unwrap_err();
    assert_eq!(e.message, "AI_SECRET is empty.");
}

#[test]
fn string_variable_is_accepted() {
    let ok = validate_env_var("RAG_SECRET", Some("s3cret"), "string").unwrap();
    assert_eq!(ok, "RAG_SECRET validated successfully.");
}

#[test]
fn json_variable_must_parse() {
    let e = validate_env_var("ENABLED_AI_BACKENDS", Some("{not json"), "json").unwrap_err();
    assert_eq!(e.message, "Failed to parse ENABLED_AI_BACKENDS as JSON.");
    let ok = validate_env_var("ENABLED_AI_BACKENDS", Some("{\"backends\":{}}"), "json").unwrap();
    assert_eq!(ok, "ENABLED_AI_BACKENDS validated successfully.");
}

#[test]
fn json_type_is_case_insensitive() {
    let e = validate_env_var("X", Some("[1,"), "JSON").unwrap_err();
    assert_eq!(e.message, "Failed to parse X as JSON.");
}

#[test]
fn unknown_type_counts_as_string() {
    assert!(validate_env_var("X", Some("[1,"), "yaml").is_ok());
    assert!(validate_env_var("X", Some("[1,"), "string").is_ok());
}

#[test]
fn path_gives_version_and_backend() {
    let (v, b) = parse_path("/ai/v1/grok").unwrap();
    assert_eq!(v, "v1");
    assert_eq!(b, "grok");
    let (v, b) = parse_path("/api/v2/google-ai-studio/extra").unwrap();
    assert_eq!(v, "v2");
    assert_eq!(b, "google-ai-studio");
}

#[test]
fn short_path_is_refused() {
    assert_eq!(parse_path("/ai").unwrap_err().message, "Invalid path.");
    assert_eq!(parse_path("").unwrap_err().message, "Invalid path.");
    assert_eq!(parse_path("/api/v1").unwrap_err().message, "Invalid path.");
    assert_eq!(parse_path("/ai/").unwrap_err().message, "Invalid path.");
    let (v, b) = parse_path("/ai/v1/").unwrap();
    assert_eq!((v.as_str(), b.as_str()), ("v1", ""));
}
