//! The administration route that indexes the documentation.

use vstd::prelude::*;

use crate::common::{env_var_check, lemma_string_variable, validate_env_var};
use crate::text::all_white_space;
use crate::cors::{check_origin, opt_view, origin_check, preflight, preflight_view};
use crate::reply::{error_reply, error_view, header, header_views, Reply};
use crate::request::Method;
use crate::text::{concat2, owned, same_text};

verus! {

/// What to do with an indexing request: answer at once, or run the indexing.
#[derive(Debug)]
pub enum AdminStep {
    Respond(Reply),
    RunIndex,
}

/// The reply to an indexing request that is answered at once, or `None` when
/// the indexing runs: the method, the `Origin` header (empty when absent),
/// the `ALLOWED_ORIGINS` and `RAG_SECRET` variables and the `X-Admin-Secret`
/// header are checked in that order. A request without an `Origin` header,
/// as an operator's command-line request is, is judged by its admin secret
/// alone; a request that names an origin must name an allowed one.
pub open spec fn admin_decision(
    method: Method,
    origin: Seq<char>,
    allowed_origins: Option<Seq<char>>,
    rag_secret: Option<Seq<char>>,
    admin_secret: Option<Seq<char>>,
) -> Option<(u16, Option<Seq<char>>, Seq<(Seq<char>, Seq<char>)>)> {
    if method == Method::Options {
        Some(preflight_view(origin, allowed_origins))
    } else if method != Method::Post {
        Some(error_view("Method Not Allowed"@, 405))
    } else if origin.len() > 0 && origin_check(origin, allowed_origins) is Err {
        Some(error_view("Forbidden"@, 403))
    } else if let Err(m) = env_var_check("RAG_SECRET"@, rag_secret, "string"@) {
        Some(error_view("Internal Server Error: Failed to validate required variable RAG_SECRET. "@ + m, 500))
    } else if admin_secret != rag_secret {
        Some(error_view("Unauthorized"@, 401))
    } else {
        None
    }
}

/// The indexing runs only for a POST, without an origin or from an allowed
/// one, whose `X-Admin-Secret` header equals the defined, non-blank
/// `RAG_SECRET` variable; and every such request runs it.
pub proof fn lemma_admin_gate(
    method: Method,
    origin: Seq<char>,
    allowed_origins: Option<Seq<char>>,
    rag_secret: Option<Seq<char>>,
    admin_secret: Option<Seq<char>>,
)
    ensures
        admin_decision(method, origin, allowed_origins, rag_secret, admin_secret) is None <==> {
            &&& method == Method::Post
            &&& (origin.len() == 0 || origin_check(origin, allowed_origins) is Ok)
            &&& rag_secret matches Some(s) && !all_white_space(s)
            &&& admin_secret == rag_secret
        },
{
    lemma_string_variable("RAG_SECRET"@, rag_secret);
}

/// A CORS preflight (`OPTIONS`) to the admin route, whatever its secrets, is
/// answered `200` with no body and the headers that allow its origin when
/// the origin is listed, and `403 Forbidden` otherwise.
pub proof fn lemma_admin_options_answered_as_preflight(
    origin: Seq<char>,
    allowed_origins: Option<Seq<char>>,
    rag_secret: Option<Seq<char>>,
    admin_secret: Option<Seq<char>>,
)
    ensures
        origin_check(origin, allowed_origins) is Ok ==> admin_decision(
            Method::Options,
            origin,
            allowed_origins,
            rag_secret,
            admin_secret,
        ) == Some((
            200u16,
            None::<Seq<char>>,
            seq![
                ("Access-Control-Allow-Origin"@, origin),
                ("Access-Control-Allow-Methods"@, "GET, POST, OPTIONS"@),
                ("Access-Control-Allow-Headers"@, "Content-Type"@),
                ("Access-Control-Max-Age"@, "86400"@),
                ("Vary"@, "Origin, Access-Control-Request-Headers"@),
            ],
        )),
        origin_check(origin, allowed_origins) is Err ==> admin_decision(
            Method::Options,
            origin,
            allowed_origins,
            rag_secret,
            admin_secret,
        ) == Some((403u16, Some("Forbidden"@), Seq::<(Seq<char>, Seq<char>)>::empty())),
{
}

/// Decides an indexing request from its method, `Origin` header, the
/// `ALLOWED_ORIGINS` and `RAG_SECRET` variables (`None` when undefined) and
/// its `X-Admin-Secret` header (`None` when absent).
pub fn handle_rag_index(
    method: Method,
    origin: &str,
    allowed_origins: Option<&str>,
    rag_secret: Option<&str>,
    admin_secret: Option<&str>,
) -> (res: AdminStep)
    ensures
        match admin_decision(method, origin@, opt_view(allowed_origins), opt_view(rag_secret), opt_view(admin_secret)) {
            Some(r) => res matches AdminStep::Respond(x) && x@ == r,
            None => res is RunIndex,
        },
{
    if method == Method::Options {
        return AdminStep::Respond(preflight(origin, allowed_origins));
    }
    if method != Method::Post {
        return AdminStep::Respond(error_reply(owned("Method Not Allowed"), 405));
    }
    if !origin.is_empty() && check_origin(origin, allowed_origins).is_err() {
        return AdminStep::Respond(error_reply(owned("Forbidden"), 403));
    }
    match validate_env_var("RAG_SECRET", rag_secret, "string") {
        Err(e) => {
            let msg = concat2(
                "Internal Server Error: Failed to validate required variable RAG_SECRET. ",
                e.message.as_str(),
            );
            return AdminStep::Respond(error_reply(msg, 500));
        },
        Ok(_) => {},
    }
    let authorized = match (admin_secret, rag_secret) {
        (Some(a), Some(r)) => same_text(a, r),
        (None, None) => true,
        _ => false,
    };
    if !authorized {
        return AdminStep::Respond(error_reply(owned("Unauthorized"), 401));
    }
    AdminStep::RunIndex
}

/// The JSON body of the reply to an indexing run.
pub open spec fn index_body(succeeded: bool) -> Seq<char> {
    if succeeded {
        "{\"message\":\"RAG indexing completed successfully\",\"success\":true}"@
    } else {
        "{\"message\":\"Indexing failed\",\"success\":false}"@
    }
}

/// The reply to an indexing run that succeeded or failed: status 200 and a
/// JSON body either way.
pub fn index_reply(succeeded: bool) -> (res: Reply)
    ensures
        res@ == (200u16, Some(index_body(succeeded)), seq![("Content-Type"@, "application/json"@)]),
{
    let body = if succeeded {
        owned("{\"message\":\"RAG indexing completed successfully\",\"success\":true}")
    } else {
        owned("{\"message\":\"Indexing failed\",\"success\":false}")
    };
    let mut headers: Vec<(String, String)> = Vec::new();
    headers.push(header("Content-Type", "application/json"));
    let res = Reply { status: 200, body: Some(body), headers };
    assert(header_views(res.headers@) =~= seq![("Content-Type"@, "application/json"@)]);
    res
}

} // verus!
