use chatbot_backend::cors::{add_headers, check_origin, preflight};

fn pairs(v: &[(&str, &str)]) -> Vec<(String, String)> {
    v.iter().map(|(a, b)| (a.to_string(), b.to_string())).collect()
}

#[test]
fn add_headers_appends_security_and_cors_headers() {
    let mut h = pairs(&[("Content-Type", "application/json")]);
    add_headers(&mut h, "https://chat.tresr.com");
    assert_eq!(
        h,
        pairs(&[
            ("Content-Type", "application/json"),
            ("X-XSS-Protection", "1; mode=block"),
            ("X-Content-Type-Options", "nosniff"),
            ("X-Frame-Options", "DENY"),
            ("Referrer-Policy", "unsafe-url"),
            ("Permissions-Policy", "geolocation=(self), fullscreen=()"),
            ("Access-Control-Allow-Origin", "https://chat.tresr.com"),
            ("Cache-Control", "public, max-age=86400"),
            ("Vary", "Origin"),
            ("Content-Security-Policy", "frame-ancestors 'self'"),
        ])
    );
}

#[test]
fn missing_origin_is_refused() {
    let e = check_origin("", Some("https://a.com")).unwrap_err();
    assert_eq!(e.message, "Bad Request: 'Origin' header is missing");
}

#[test]
fn undefined_allowed_origins_is_refused() {
    let e = check_origin("https://a.com", None).unwrap_err();
    assert_eq!(e.message, "ERROR: ALLOWED_ORIGINS is not defined.");
}

#[test]
fn listed_origin_is_allowed() {
    assert!(check_origin("https://b.com", Some("https://a.com,https://b.com")).is_ok());
}

#[test]
fn only_whole_entries_of_the_list_are_allowed() {
    let list = Some("https://chat.tresr.com");
    assert_eq!(check_origin("https://chat.tresr", list).unwrap_err().message, "Origin not allowed");
    assert!(check_origin("https://chat.tresr.com", list).is_ok());
    assert!(check_origin("chat.tresr.com", list).is_err());
    assert!(check_origin("https://chat.tresr.com,", list).is_err());
    let list = Some(" https://a.com , https://b.org,http://localhost:9000\n");
    for o in ["https://a.com", "https://b.org", "http://localhost:9000"] {
        assert!(check_origin(o, list).is_ok(), "{}", o);
    }
    for o in ["https://a.co", "a.com", "https://b.org,http://localhost:9000", "localhost", "https://a.com "] {
        assert!(check_origin(o, list).is_err(), "{}", o);
    }
}

#[test]
fn unlisted_origin_is_refused() {
    let e = check_origin("https://evil.com", Some("https://a.com,https://b.com")).unwrap_err();
    assert_eq!(e.message, "Origin not allowed");
}

#[test]
fn preflight_for_forbidden_origin() {
    let r = preflight("https://evil.com", Some("https://a.com"));
    assert_eq!(r.status, 403);
    assert_eq!(r.body.as_deref(), Some("Forbidden"));
    assert!(r.headers.is_empty());
}

#[test]
fn preflight_for_allowed_origin() {
    let r = preflight("https://a.com", Some("https://a.com"));
    assert_eq!(r.status, 200);
    assert_eq!(r.body, None);
    assert_eq!(
        r.headers,
        pairs(&[
            ("Access-Control-Allow-Origin", "https://a.com"),
            ("Access-Control-Allow-Methods", "GET, POST, OPTIONS"),
            ("Access-Control-Allow-Headers", "Content-Type"),
            ("Access-Control-Max-Age", "86400"),
            ("Vary", "Origin, Access-Control-Request-Headers"),
        ])
    );
}

/// The headers as a reply ends up with them: each pair sets its name,
/// replacing an earlier value.
fn applied(list: &[(String, String)]) -> Vec<(String, String)> {
    let mut out: Vec<(String, String)> = Vec::new();
    for (name, value) in list {
        match out.iter_mut().find(|(n, _)| n == name) {
            Some(slot) => slot.1 = value.clone(),
            None => out.push((name.clone(), value.clone())),
        }
    }
    out
}

#[test]
fn add_headers_twice_is_add_headers_once() {
    let start = pairs(&[("Content-Type", "text/plain"), ("X-Frame-Options", "SAMEORIGIN"), ("X-Custom", "1")]);
    let mut once = start.clone();
    add_headers(&mut once, "https://chat.tresr.com");
    let mut twice = once.clone();
    add_headers(&mut twice, "https://chat.tresr.com");
    assert_eq!(applied(&twice), applied(&once));
    let set = applied(&once);
    assert_eq!(set[0], ("Content-Type".to_string(), "text/plain".to_string()));
    assert_eq!(set[1], ("X-Frame-Options".to_string(), "DENY".to_string()));
    assert_eq!(set[2], ("X-Custom".to_string(), "1".to_string()));
    assert_eq!(set.len(), 11);
}
