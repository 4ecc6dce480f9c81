//! The AI route: `/ai/{version}/{backend}`.

use vstd::prelude::*;

use crate::ai::{backend_enabled, handle_ai_service, is_allowed_ai_backend, service_for, ServiceStep};
use crate::common::{env_var_check, parse_path, path_segments, validate_env_var};
use crate::cors::{add_headers, check_origin, cors_headers, opt_view, origin_check, preflight, preflight_view};
use crate::error::Error;
use crate::json::Json;
use crate::reply::{error_reply, error_view, header_views, Reply};
use crate::request::Method;
use crate::text::{all_white_space, concat2, lower_text, owned};

verus! {

/// What to do with an AI request before its body is read: answer at once, or
/// read the message for the given AI version and backend.
#[derive(Debug)]
pub enum ApiStep {
    Respond(Reply),
    ReadBody { version: String, backend: String },
}

/// The outcome of the checks on an AI request before its body is read: the
/// reply when one of them answers it, else the version and backend. The
/// method, the `Origin` header, the `ALLOWED_ORIGINS` variable, the path, the
/// `ENABLED_AI_BACKENDS` configuration and the `AI_SECRET` variable are
/// checked in that order.
pub open spec fn api_decision(
    method: Method,
    path: Seq<char>,
    origin: Seq<char>,
    allowed_origins: Option<Seq<char>>,
    config: Option<Json>,
    ai_secret: Option<Seq<char>>,
) -> Result<(Seq<char>, Seq<char>), (u16, Option<Seq<char>>, Seq<(Seq<char>, Seq<char>)>)> {
    if method == Method::Options {
        Err(preflight_view(origin, allowed_origins))
    } else if method != Method::Post {
        Err(error_view("Method Not Allowed"@, 405))
    } else if origin.len() == 0 {
        Err(error_view("Bad Request: 'Origin' header is missing"@, 400))
    } else if origin_check(origin, allowed_origins) is Err {
        Err(error_view("Forbidden"@, 403))
    } else if path_segments(path).len() < 4 {
        Err(error_view("API version and AI backend not found"@, 404))
    } else if !backend_enabled(config, path_segments(path)[3], path_segments(path)[2]) {
        Err(error_view("Forbidden"@, 403))
    } else if let Err(m) = env_var_check("AI_SECRET"@, ai_secret, "string"@) {
        Err(error_view("Internal Server Error: Failed to validate required variable AI_SECRET. "@ + m, 500))
    } else {
        Ok((path_segments(path)[2], path_segments(path)[3]))
    }
}

/// A CORS preflight (`OPTIONS`) to the AI route, whatever its path,
/// configuration and secret, is answered `200` with no body and the headers
/// that allow its origin, POST and a JSON body, when the origin is listed;
/// and `403 Forbidden` otherwise.
pub proof fn lemma_options_answered_as_preflight(
    path: Seq<char>,
    origin: Seq<char>,
    allowed_origins: Option<Seq<char>>,
    config: Option<Json>,
    ai_secret: Option<Seq<char>>,
)
    ensures
        origin_check(origin, allowed_origins) is Ok ==> (api_decision(
            Method::Options,
            path,
            origin,
            allowed_origins,
            config,
            ai_secret,
        ) matches Err(r) && r == (
            200u16,
            None::<Seq<char>>,
            seq![
                ("Access-Control-Allow-Origin"@, origin),
                ("Access-Control-Allow-Methods"@, "GET, POST, OPTIONS"@),
                ("Access-Control-Allow-Headers"@, "Content-Type"@),
                ("Access-Control-Max-Age"@, "86400"@),
                ("Vary"@, "Origin, Access-Control-Request-Headers"@),
            ],
        )),
        origin_check(origin, allowed_origins) is Err ==> (api_decision(
            Method::Options,
            path,
            origin,
            allowed_origins,
            config,
            ai_secret,
        ) matches Err(r) && r == (403u16, Some("Forbidden"@), Seq::<(Seq<char>, Seq<char>)>::empty())),
{
}

/// An AI request gets to its body only as a POST from an allowed origin, for
/// an enabled backend and version, with a valid `AI_SECRET`; the version and
/// backend are then the third and fourth segments of its path.
pub proof fn lemma_api_gate(
    method: Method,
    path: Seq<char>,
    origin: Seq<char>,
    allowed_origins: Option<Seq<char>>,
    config: Option<Json>,
    ai_secret: Option<Seq<char>>,
)
    requires
        api_decision(method, path, origin, allowed_origins, config, ai_secret) is Ok,
    ensures
        method == Method::Post,
        origin_check(origin, allowed_origins) is Ok,
        path_segments(path).len() >= 4,
        backend_enabled(config, path_segments(path)[3], path_segments(path)[2]),
        ai_secret matches Some(s) && !all_white_space(s),
        api_decision(method, path, origin, allowed_origins, config, ai_secret) == Ok::<(Seq<char>, Seq<char>), (u16, Option<Seq<char>>, Seq<(Seq<char>, Seq<char>)>)>((path_segments(path)[2], path_segments(path)[3])),
{
    crate::common::lemma_string_variable("AI_SECRET"@, ai_secret);
}

/// Checks an AI request before its body is read: its method, `Origin`
/// header (empty when absent), path, the `ALLOWED_ORIGINS` variable, the
/// parsed `ENABLED_AI_BACKENDS` configuration (`None` when missing or not
/// JSON) and the `AI_SECRET` variable. A path without version and backend
/// segments is answered `404`.
pub fn handle_all(
    method: Method,
    path: &str,
    origin: &str,
    allowed_origins: Option<&str>,
    config: Option<&Json>,
    ai_secret: Option<&str>,
) -> (res: ApiStep)
    ensures
        match api_decision(
            method,
            path@,
            origin@,
            opt_view(allowed_origins),
            match config {
                Some(c) => Some(*c),
                None => None,
            },
            opt_view(ai_secret),
        ) {
            Ok((v, b)) => res matches ApiStep::ReadBody { version, backend } && version@ == v && backend@ == b,
            Err(r) => res matches ApiStep::Respond(x) && x@ == r,
        },
{
    if method == Method::Options {
        return ApiStep::Respond(preflight(origin, allowed_origins));
    }
    if method != Method::Post {
        return ApiStep::Respond(error_reply(owned("Method Not Allowed"), 405));
    }
    if origin.is_empty() {
        return ApiStep::Respond(error_reply(owned("Bad Request: 'Origin' header is missing"), 400));
    }
    if check_origin(origin, allowed_origins).is_err() {
        return ApiStep::Respond(error_reply(owned("Forbidden"), 403));
    }
    let (version, backend) = match parse_path(path) {
        Ok(parts) => parts,
        Err(_) => {
            return ApiStep::Respond(error_reply(owned("API version and AI backend not found"), 404));
        },
    };
    if !is_allowed_ai_backend(config, backend.as_str(), version.as_str()) {
        return ApiStep::Respond(error_reply(owned("Forbidden"), 403));
    }
    match validate_env_var("AI_SECRET", ai_secret, "string") {
        Err(e) => {
            let msg = concat2(
                "Internal Server Error: Failed to validate required variable AI_SECRET. ",
                e.message.as_str(),
            );
            return ApiStep::Respond(error_reply(msg, 500));
        },
        Ok(_) => {},
    }
    ApiStep::ReadBody { version, backend }
}

/// The reply of an AI service, with the security and CORS headers for
/// `origin` added after its own.
pub fn finish_ai_reply(reply: Reply, origin: &str) -> (res: Reply)
    ensures
        res@.0 == reply@.0,
        res@.1 == reply@.1,
        res@.2 == reply@.2 + cors_headers(origin@),
{
    let mut reply = reply;
    add_headers(&mut reply.headers, origin);
    reply
}

/// Takes the message of an AI request's body for the given version and
/// backend: an empty message is refused; otherwise the service is selected
/// with the `AI_SECRET` variable (`None` when undefined) as the secret, and a
/// reply of the service selection carries the CORS headers for `origin`.
pub fn handle_message(message: &str, version: &str, backend: &str, ai_secret: Option<&str>, origin: &str) -> (res: Result<ServiceStep, Error>)
    ensures
        message@.len() == 0 ==> (res matches Ok(ServiceStep::Respond(r)) && r@ == error_view(
            "Bad Request: 'message' data is missing"@,
            400,
        )),
        message@.len() > 0 && ai_secret is None ==> (res matches Err(e) && e@ == "ERROR: AI_SECRET is not defined."@),
        message@.len() > 0 && ai_secret is Some ==> match service_for(lower_text(backend@), lower_text(version@)) {
            Some(s) => res matches Ok(ServiceStep::Call(c)) && c == s,
            None => res matches Ok(ServiceStep::Respond(r)) && r@ == (
                404u16,
                Some("AI backend "@ + lower_text(backend@) + " has no version "@ + lower_text(version@)),
                cors_headers(origin@),
            ),
        },
{
    if message.is_empty() {
        return Ok(ServiceStep::Respond(error_reply(owned("Bad Request: 'message' data is missing"), 400)));
    }
    let secret = match ai_secret {
        Some(s) => s,
        None => return Err(Error::new(owned("ERROR: AI_SECRET is not defined."))),
    };
    match handle_ai_service(secret, backend, version, Some(secret)) {
        Ok(ServiceStep::Respond(r)) => {
            let mut r = r;
            let ghost before = header_views(r.headers@);
            add_headers(&mut r.headers, origin);
            assert(before =~= Seq::empty());
            assert(header_views(r.headers@) =~= cors_headers(origin@));
            Ok(ServiceStep::Respond(r))
        },
        other => other,
    }
}

} // verus!
