use chatbot_backend::ai::cloudflare::v1::google_ai_studio::{self, GoogleAIResponse};
use chatbot_backend::ai::cloudflare::v1::grok::{self, GrokResponse};
use chatbot_backend::ai::cloudflare::v1::prompt::{get_system_prompt, PROMPT};
use chatbot_backend::ai::cloudflare::v1::{
    ai_reply, gateway_reply, handle_ai, is_success, request_failure, var_or_error, AIResponse,
};
use chatbot_backend::ai::{handle_ai_service, is_allowed_ai_backend, AiService, ServiceStep};
use chatbot_backend::error::Error;
use chatbot_backend::json::Json;
use chatbot_backend::request::Method;
use serde_json::Value;

fn text(s: &str) -> Json {
    Json::Text(s.to_string())
}

fn config() -> Json {
    Json::Object(vec![(
        "backends".to_string(),
        Json::Object(vec![
            ("chatbot".to_string(), Json::Array(vec![text("v1")])),
            ("grok".to_string(), Json::Array(vec![Json::Number("1".to_string()), text("v1"), text("v2")])),
            ("odd".to_string(), text("v1")),
        ]),
    )])
}

#[test]
fn enabled_backend_versions_are_allowed() {
    let c = config();
    assert!(is_allowed_ai_backend(Some(&c), "grok", "v2"));
    assert!(is_allowed_ai_backend(Some(&c), "chatbot", "v1"));
}

#[test]
fn other_backends_and_versions_are_not() {
    let c = config();
    assert!(!is_allowed_ai_backend(Some(&c), "grok", "v3"));
    assert!(!is_allowed_ai_backend(Some(&c), "google-ai-studio", "v1"));
    assert!(!is_allowed_ai_backend(Some(&c), "odd", "v1"));
    assert!(!is_allowed_ai_backend(None, "grok", "v1"));
    assert!(!is_allowed_ai_backend(Some(&Json::Array(vec![])), "grok", "v1"));
    let no_table = Json::Object(vec![("backends".to_string(), Json::Null)]);
    assert!(!is_allowed_ai_backend(Some(&no_table), "grok", "v1"));
}

#[test]
fn service_needs_the_secret_variable() {
    let e = handle_ai_service("s", "grok", "v1", None).unwrap_err();
    assert_eq!(e.message, "ERROR: AI_SECRET is not defined.");
}

#[test]
fn wrong_secret_is_unauthorized() {
    match handle_ai_service("wrong", "grok", "v1", Some("right")).unwrap() {
        ServiceStep::Respond(r) => {
            assert_eq!(r.status, 401);
            assert_eq!(r.body.as_deref(), Some("Unauthorized"));
        },
        _ => panic!("expected a reply"),
    }
}

#[test]
fn backend_and_version_are_matched_in_lowercase() {
    match handle_ai_service("k", "GROK", "V1", Some("k")).unwrap() {
        ServiceStep::Call(s) => assert_eq!(s, AiService::Grok),
        _ => panic!("expected a call"),
    }
    match handle_ai_service("k", "Google-AI-Studio", "v1", Some("k")).unwrap() {
        ServiceStep::Call(s) => assert_eq!(s, AiService::GoogleAiStudio),
        _ => panic!("expected a call"),
    }
    match handle_ai_service("k", "chatbot", "v1", Some("k")).unwrap() {
        ServiceStep::Call(s) => assert_eq!(s, AiService::Chatbot),
        _ => panic!("expected a call"),
    }
}

#[test]
fn unknown_backend_version_is_not_found() {
    match handle_ai_service("k", "Grok", "V9", Some("k")).unwrap() {
        ServiceStep::Respond(r) => {
            assert_eq!(r.status, 404);
            assert_eq!(r.body.as_deref(), Some("AI backend grok has no version v9"));
        },
        _ => panic!("expected a reply"),
    }
}

fn reply_json(message: &str, reply: Option<&str>, error: Option<&str>) -> String {
    let mut m = serde_json::Map::new();
    m.insert("message".to_string(), Value::String(message.to_string()));
    m.insert("reply".to_string(), reply.map(|r| Value::String(r.to_string())).unwrap_or(Value::Null));
    m.insert("error".to_string(), error.map(|r| Value::String(r.to_string())).unwrap_or(Value::Null));
    serde_json::to_string(&Value::Object(m)).unwrap()
}

#[test]
fn ai_reply_with_text() {
    let r = ai_reply("Say \"gm\"\n", Ok("gm ☀️".to_string()));
    assert_eq!(r.status, 200);
    assert_eq!(r.body.clone().unwrap(), reply_json("Say \"gm\"\n", Some("gm ☀️"), None));
    assert_eq!(r.body.unwrap(), "{\"error\":null,\"message\":\"Say \\\"gm\\\"\\n\",\"reply\":\"gm ☀️\"}");
    assert_eq!(r.headers, vec![("Content-Type".to_string(), "application/json; charset=utf-8".to_string())]);
}

#[test]
fn ai_reply_with_error() {
    let r = ai_reply("hi", Err(Error::new("boom".to_string())));
    assert_eq!(r.body.unwrap(), reply_json("hi", None, Some("boom")));
}

#[test]
fn handle_ai_dispatches_gateway_services() {
    assert!(matches!(handle_ai("m", "grok"), ServiceStep::Call(AiService::Grok)));
    assert!(matches!(handle_ai("m", "google-ai-studio"), ServiceStep::Call(AiService::GoogleAiStudio)));
    match handle_ai("m", "chatbot") {
        ServiceStep::Respond(r) => assert_eq!(r.body.unwrap(), reply_json("m", None, Some("Invalid AI type: chatbot"))),
        _ => panic!("expected a reply"),
    }
}

#[test]
fn response_variants() {
    assert_eq!(AIResponse::Grok("a".to_string()).get_response().unwrap(), "a");
    assert_eq!(AIResponse::GoogleAI("b".to_string()).get_response().unwrap(), "b");
    assert_eq!(AIResponse::Invalid(Error::new("c".to_string())).get_response().unwrap_err().message, "c");
}

#[test]
fn system_prompt_is_the_persona() {
    let p = get_system_prompt("grok").unwrap();
    assert_eq!(p, PROMPT);
    assert!(p.contains("You are Ron Jay"));
    assert_eq!(get_system_prompt("anything").unwrap(), PROMPT);
}

#[test]
fn success_statuses() {
    assert!(is_success(200));
    assert!(is_success(299));
    assert!(!is_success(199));
    assert!(!is_success(300));
    assert!(!is_success(500));
}

#[test]
fn failure_message() {
    assert_eq!(request_failure(503, "busy").message, "API request failed: 503 - busy");
}

#[test]
fn variable_lookup_errors_pass_through() {
    assert_eq!(var_or_error(Ok("v".to_string())).unwrap(), "v");
    assert_eq!(var_or_error(Err("no binding".to_string())).unwrap_err().message, "no binding");
}

fn grok_payload(prompt: &str, message: &str) -> String {
    let msg = |role: &str, content: &str| {
        let mut m = serde_json::Map::new();
        m.insert("role".to_string(), Value::String(role.to_string()));
        m.insert("content".to_string(), Value::String(content.to_string()));
        Value::Object(m)
    };
    let mut m = serde_json::Map::new();
    m.insert("model".to_string(), Value::String("grok-2-1212".to_string()));
    m.insert("messages".to_string(), Value::Array(vec![msg("system", prompt), msg("user", message)]));
    Value::Object(m).to_string()
}

#[test]
fn grok_request_is_built() {
    let req = grok::call_ai("be \"nice\"", "gm", Ok("gw".to_string()), Ok("key".to_string())).unwrap();
    assert_eq!(req.method, Method::Post);
    assert_eq!(
        req.url,
        "https://gateway.ai.cloudflare.com/v1/6d6a8fb1f9f3f38b7374d4974c0743cf/tresr-community/grok/v1/chat/completions"
    );
    assert_eq!(
        req.headers,
        vec![
            ("Content-Type".to_string(), "application/json".to_string()),
            ("cf-aig-authorization".to_string(), "Bearer gw".to_string()),
            ("Authorization".to_string(), "Bearer key".to_string()),
        ]
    );
    assert_eq!(req.body.unwrap(), grok_payload("be \"nice\"", "gm"));
}

#[test]
fn grok_request_needs_both_tokens() {
    let e = grok::call_ai("p", "m", Err("no gateway".to_string()), Err("no key".to_string())).unwrap_err();
    assert_eq!(e.message, "no gateway");
    let e = grok::call_ai("p", "m", Ok("g".to_string()), Err("no key".to_string())).unwrap_err();
    assert_eq!(e.message, "no key");
}

#[test]
fn grok_reply_reading() {
    let ok = grok::read_reply(Ok(GrokResponse { choices: vec!["first".to_string(), "second".to_string()] }));
    assert_eq!(ok.unwrap(), "first");
    let none = grok::read_reply(Ok(GrokResponse { choices: vec![] }));
    assert_eq!(none.unwrap_err().message, "No response content from Grok");
    let bad = grok::read_reply(Err("expected value".to_string()));
    assert_eq!(bad.unwrap_err().message, "Failed to parse Grok response: expected value");
}

#[test]
fn google_request_sends_only_the_message() {
    let req = google_ai_studio::call_ai("prompt", "hello", Ok("gw".to_string()), Ok("gk".to_string())).unwrap();
    assert_eq!(
        req.url,
        "https://gateway.ai.cloudflare.com/v1/6d6a8fb1f9f3f38b7374d4974c0743cf/tresr-community/google-ai-studio/v1/models/gemini-1.5-pro:generateContent"
    );
    assert_eq!(
        req.headers,
        vec![
            ("Content-Type".to_string(), "application/json".to_string()),
            ("cf-aig-authorization".to_string(), "Bearer gw".to_string()),
            ("x-goog-api-key".to_string(), "gk".to_string()),
        ]
    );
    let mut part = serde_json::Map::new();
    part.insert("text".to_string(), Value::String("hello".to_string()));
    let mut content = serde_json::Map::new();
    content.insert("parts".to_string(), Value::Array(vec![Value::Object(part)]));
    content.insert("role".to_string(), Value::String("user".to_string()));
    let mut top = serde_json::Map::new();
    top.insert("contents".to_string(), Value::Array(vec![Value::Object(content)]));
    assert_eq!(req.body.unwrap(), Value::Object(top).to_string());
}

#[test]
fn google_reply_joins_all_parts() {
    let r = GoogleAIResponse {
        candidates: vec![vec!["a".to_string(), "b".to_string()], vec![], vec!["c".to_string()]],
    };
    assert_eq!(google_ai_studio::read_reply(Ok(r)).unwrap(), "a\nb\nc");
    assert_eq!(google_ai_studio::read_reply(Ok(GoogleAIResponse { candidates: vec![] })).unwrap(), "");
    assert_eq!(
        google_ai_studio::read_reply(Err("eof".to_string())).unwrap_err().message,
        "Failed to parse AI response: eof"
    );
}

#[test]
fn ai_reply_escapes_control_characters() {
    let message = "a\u{1}b\u{1f}\t\u{8}\u{c}\r\\\"\u{7f}";
    let r = ai_reply(message, Ok("x\u{0}y".to_string()));
    assert_eq!(r.body.clone().unwrap(), reply_json(message, Some("x\u{0}y"), None));
    assert_eq!(
        r.body.unwrap(),
        "{\"error\":null,\"message\":\"a\\u0001b\\u001f\\t\\b\\f\\r\\\\\\\"\u{7f}\",\"reply\":\"x\\u0000y\"}"
    );
}

#[test]
fn gateway_reply_outcomes() {
    assert_eq!(gateway_reply(200, Ok("{}".to_string())).unwrap(), "{}");
    assert_eq!(gateway_reply(204, Err("unreadable".to_string())).unwrap_err().message, "unreadable");
    assert_eq!(
        gateway_reply(502, Ok("bad gateway".to_string())).unwrap_err().message,
        "API request failed: 502 - bad gateway"
    );
    assert_eq!(gateway_reply(300, Err("x".to_string())).unwrap_err().message, "API request failed: 300 - ");
    assert_eq!(gateway_reply(199, Ok("".to_string())).unwrap_err().message, "API request failed: 199 - ");
}
