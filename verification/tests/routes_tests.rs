use chatbot_backend::ai::{AiService, ServiceStep};
use chatbot_backend::json::Json;
use chatbot_backend::request::Method;
use chatbot_backend::routes::admin::{handle_rag_index, index_reply, AdminStep};
use chatbot_backend::routes::api::{finish_ai_reply, handle_all, handle_message, ApiStep};
use chatbot_backend::routes::health::handle_get;
use chatbot_backend::routes::{select_route, Route};

const ORIGINS: Option<&str> = Some("https://chat.tresr.com,http://localhost:9000");

fn enabled() -> Json {
    Json::Object(vec![(
        "backends".to_string(),
        Json::Object(vec![("grok".to_string(), Json::Array(vec![Json::Text("v1".to_string())]))]),
    )])
}

fn reply_of_api(step: ApiStep) -> (u16, String) {
    match step {
        ApiStep::Respond(r) => (r.status, r.body.unwrap_or_default()),
        ApiStep::ReadBody { .. } => panic!("expected a reply"),
    }
}

#[test]
fn routes_by_prefix() {
    assert_eq!(select_route("/ai/admin/rag-index"), Route::RagIndex);
    assert_eq!(select_route("/ai/v1/grok"), Route::Api);
    assert_eq!(select_route("/health"), Route::Other);
    assert_eq!(select_route("/ai"), Route::Other);
}

#[test]
fn health_check() {
    let r = handle_get();
    assert_eq!(r.status, 200);
    assert_eq!(r.body.as_deref(), Some("OK"));
    assert_eq!(r.headers.len(), 6);
    assert_eq!(r.headers[1], ("Cache-Control".to_string(), "no-store, no-cache, must-revalidate".to_string()));
}

#[test]
fn api_preflight_and_methods() {
    match handle_all(Method::Options, "/ai/v1/grok", "https://chat.tresr.com", ORIGINS, None, None) {
        ApiStep::Respond(r) => assert_eq!(r.status, 200),
        _ => panic!(),
    }
    let c = enabled();
    assert_eq!(
        reply_of_api(handle_all(Method::Get, "/ai/v1/grok", "https://chat.tresr.com", ORIGINS, Some(&c), Some("k"))),
        (405, "Method Not Allowed".to_string())
    );
}

#[test]
fn api_origin_checks() {
    let c = enabled();
    assert_eq!(
        reply_of_api(handle_all(Method::Post, "/ai/v1/grok", "", ORIGINS, Some(&c), Some("k"))),
        (400, "Bad Request: 'Origin' header is missing".to_string())
    );
    assert_eq!(
        reply_of_api(handle_all(Method::Post, "/ai/v1/grok", "https://evil.com", ORIGINS, Some(&c), Some("k"))),
        (403, "Forbidden".to_string())
    );
}

#[test]
fn api_path_and_backend_checks() {
    let c = enabled();
    assert_eq!(
        reply_of_api(handle_all(Method::Post, "/ai", "https://chat.tresr.com", ORIGINS, Some(&c), Some("k"))),
        (404, "API version and AI backend not found".to_string())
    );
    for path in ["/ai/v1", "/ai/", ""] {
        assert_eq!(
            reply_of_api(handle_all(Method::Post, path, "https://chat.tresr.com", ORIGINS, Some(&c), Some("k"))),
            (404, "API version and AI backend not found".to_string())
        );
    }
    assert_eq!(
        reply_of_api(handle_all(Method::Post, "/ai/v1/grok", "https://chat.tresr", ORIGINS, Some(&c), Some("k"))),
        (403, "Forbidden".to_string())
    );
    assert_eq!(
        reply_of_api(handle_all(Method::Post, "/ai/v2/grok", "https://chat.tresr.com", ORIGINS, Some(&c), Some("k"))),
        (403, "Forbidden".to_string())
    );
}

#[test]
fn api_secret_check() {
    let c = enabled();
    assert_eq!(
        reply_of_api(handle_all(Method::Post, "/ai/v1/grok", "https://chat.tresr.com", ORIGINS, Some(&c), Some("  "))),
        (500, "Internal Server Error: Failed to validate required variable AI_SECRET. AI_SECRET is empty.".to_string())
    );
}

#[test]
fn api_request_reads_its_body() {
    let c = enabled();
    match handle_all(Method::Post, "/ai/v1/grok", "https://chat.tresr.com", ORIGINS, Some(&c), Some("k")) {
        ApiStep::ReadBody { version, backend } => {
            assert_eq!(version, "v1");
            assert_eq!(backend, "grok");
        },
        _ => panic!("expected to read the body"),
    }
}

#[test]
fn message_handling() {
    match handle_message("", "v1", "grok", Some("k"), "https://a.com").unwrap() {
        ServiceStep::Respond(r) => {
            assert_eq!(r.status, 400);
            assert_eq!(r.body.as_deref(), Some("Bad Request: 'message' data is missing"));
        },
        _ => panic!(),
    }
    assert_eq!(handle_message("hi", "v1", "grok", None, "https://a.com").unwrap_err().message, "ERROR: AI_SECRET is not defined.");
    assert!(matches!(handle_message("hi", "v1", "grok", Some("k"), "https://a.com").unwrap(), ServiceStep::Call(AiService::Grok)));
    match handle_message("hi", "v7", "Grok", Some("k"), "https://a.com").unwrap() {
        ServiceStep::Respond(r) => {
            assert_eq!(r.status, 404);
            assert_eq!(r.body.as_deref(), Some("AI backend grok has no version v7"));
            assert_eq!(r.headers.len(), 9);
            assert_eq!(r.headers[5], ("Access-Control-Allow-Origin".to_string(), "https://a.com".to_string()));
        },
        _ => panic!(),
    }
}

fn reply_of_admin(step: AdminStep) -> (u16, String) {
    match step {
        AdminStep::Respond(r) => (r.status, r.body.unwrap_or_default()),
        AdminStep::RunIndex => panic!("expected a reply"),
    }
}

#[test]
fn admin_checks() {
    let o = "https://chat.tresr.com";
    assert_eq!(reply_of_admin(handle_rag_index(Method::Get, o, ORIGINS, Some("s"), Some("s"))), (405, "Method Not Allowed".to_string()));
    // An operator's request without an Origin header is judged by its secret.
    assert!(matches!(handle_rag_index(Method::Post, "", ORIGINS, Some("s"), Some("s")), AdminStep::RunIndex));
    assert!(matches!(handle_rag_index(Method::Post, "", None, Some("s"), Some("s")), AdminStep::RunIndex));
    assert_eq!(reply_of_admin(handle_rag_index(Method::Post, "", ORIGINS, Some("s"), Some("t"))), (401, "Unauthorized".to_string()));
    assert_eq!(reply_of_admin(handle_rag_index(Method::Post, "https://x.io", ORIGINS, Some("s"), Some("s"))).0, 403);
    assert_eq!(
        reply_of_admin(handle_rag_index(Method::Post, o, ORIGINS, None, Some("s"))),
        (500, "Internal Server Error: Failed to validate required variable RAG_SECRET. RAG_SECRET is not defined.".to_string())
    );
    assert_eq!(reply_of_admin(handle_rag_index(Method::Post, o, ORIGINS, Some("s"), Some("t"))), (401, "Unauthorized".to_string()));
    assert_eq!(reply_of_admin(handle_rag_index(Method::Post, o, ORIGINS, Some("s"), None)), (401, "Unauthorized".to_string()));
    assert!(matches!(handle_rag_index(Method::Post, o, ORIGINS, Some("s"), Some("s")), AdminStep::RunIndex));
    match handle_rag_index(Method::Options, o, ORIGINS, None, None) {
        AdminStep::Respond(r) => assert_eq!(r.status, 200),
        _ => panic!(),
    }
}

#[test]
fn index_replies() {
    let ok = index_reply(true);
    assert_eq!(ok.status, 200);
    assert_eq!(ok.body.unwrap(), "{\"message\":\"RAG indexing completed successfully\",\"success\":true}");
    let failed = index_reply(false);
    assert_eq!(failed.body.unwrap(), "{\"message\":\"Indexing failed\",\"success\":false}");
    assert_eq!(failed.headers, vec![("Content-Type".to_string(), "application/json".to_string())]);
}

#[test]
fn ai_replies_get_cors_headers() {
    let reply = chatbot_backend::ai::cloudflare::v1::ai_reply("hi", Ok("hello".to_string()));
    let body = reply.body.clone();
    let r = finish_ai_reply(reply, "https://chat.tresr.com");
    assert_eq!(r.status, 200);
    assert_eq!(r.body, body);
    assert_eq!(r.headers[0], ("Content-Type".to_string(), "application/json; charset=utf-8".to_string()));
    assert!(r.headers.contains(&("Access-Control-Allow-Origin".to_string(), "https://chat.tresr.com".to_string())));
    assert!(r.headers.contains(&("X-Frame-Options".to_string(), "DENY".to_string())));
    assert_eq!(r.headers.len(), 10);
}
