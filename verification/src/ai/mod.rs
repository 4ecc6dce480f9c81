//! Which AI backends are enabled, and which service serves a request.

pub mod cloudflare;

use vstd::prelude::*;

use crate::error::Error;
use crate::json::{member, member_of, Json};
use crate::reply::{error_reply, error_view, Reply};
use crate::text::{concat4, lower, lower_text, owned, same_text};

verus! {

/// Whether the `ENABLED_AI_BACKENDS` configuration (`None` when the variable
/// is missing or is not JSON) lists `version` for `backend`: the value must
/// be an object whose `backends` member is an object, whose member for
/// `backend` is an array holding the string `version`.
pub open spec fn backend_enabled(config: Option<Json>, backend: Seq<char>, version: Seq<char>) -> bool {
    match config {
        Some(Json::Object(top)) => match member(top@, "backends"@) {
            Some(Json::Object(table)) => match member(table@, backend) {
                Some(Json::Array(items)) => exists|i: int|
                    0 <= i < items@.len() && (#[trigger] items@[i] matches Json::Text(s) && s@ == version),
                _ => false,
            },
            _ => false,
        },
        _ => false,
    }
}

/// A version is enabled for a backend when the backend's array in the
/// `backends` object lists it as a string anywhere, whatever else the array
/// holds before or after it.
pub proof fn lemma_listed_version_enabled(
    top: Vec<(String, Json)>,
    table: Vec<(String, Json)>,
    items: Vec<Json>,
    backend: Seq<char>,
    version: Seq<char>,
    i: int,
)
    requires
        member(top@, "backends"@) == Some(Json::Object(table)),
        member(table@, backend) == Some(Json::Array(items)),
        0 <= i < items@.len(),
        items@[i] matches Json::Text(s) && s@ == version,
    ensures
        backend_enabled(Some(Json::Object(top)), backend, version),
{
    assert(items@[i] matches Json::Text(s) && s@ == version);
}

/// A version that the backend's array in the `backends` object does not list
/// as a string is not enabled.
pub proof fn lemma_unlisted_version_disabled(
    top: Vec<(String, Json)>,
    table: Vec<(String, Json)>,
    items: Vec<Json>,
    backend: Seq<char>,
    version: Seq<char>,
)
    requires
        member(top@, "backends"@) == Some(Json::Object(table)),
        member(table@, backend) == Some(Json::Array(items)),
        forall|i: int| 0 <= i < items@.len() ==> !(#[trigger] items@[i] matches Json::Text(s) && s@ == version),
    ensures
        !backend_enabled(Some(Json::Object(top)), backend, version),
{
}

/// Whether `ai_version` of `ai_backend` is enabled by the configuration.
pub fn is_allowed_ai_backend(config: Option<&Json>, ai_backend: &str, ai_version: &str) -> (res: bool)
    ensures
        res == backend_enabled(
            match config {
                Some(c) => Some(*c),
                None => None,
            },
            ai_backend@,
            ai_version@,
        ),
{
    let top = match config {
        Some(Json::Object(top)) => top,
        _ => return false,
    };
    let table = match member_of(top, "backends") {
        Some(Json::Object(table)) => table,
        _ => return false,
    };
    let items = match member_of(table, ai_backend) {
        Some(Json::Array(items)) => items,
        _ => return false,
    };
    assert(member(top@, "backends"@) == Some(Json::Object(*table)));
    assert(member(table@, ai_backend@) == Some(Json::Array(*items)));
    let mut i: usize = 0;
    while i < items.len()
        invariant
            i <= items.len(),
            config matches Some(c) && *c == Json::Object(*top),
            member(top@, "backends"@) == Some(Json::Object(*table)),
            member(table@, ai_backend@) == Some(Json::Array(*items)),
            forall|j: int| 0 <= j < i ==> !(#[trigger] items@[j] matches Json::Text(s) && s@ == ai_version@),
        decreases items.len() - i,
    {
        match &items[i] {
            Json::Text(s) => {
                if same_text(s.as_str(), ai_version) {
                    assert(items@[i as int] matches Json::Text(t) && t@ == ai_version@);
                    return true;
                }
            },
            _ => {},
        }
        i = i + 1;
    }
    false
}

/// The AI services that a request can be routed to.
#[derive(PartialEq, Eq, Structural, Clone, Copy, Debug)]
pub enum AiService {
    Chatbot,
    GoogleAiStudio,
    Grok,
}

/// The service for a (lowercased) backend and version, if there is one.
pub open spec fn service_for(backend: Seq<char>, version: Seq<char>) -> Option<AiService> {
    if version == "v1"@ && backend == "chatbot"@ {
        Some(AiService::Chatbot)
    } else if version == "v1"@ && backend == "google-ai-studio"@ {
        Some(AiService::GoogleAiStudio)
    } else if version == "v1"@ && backend == "grok"@ {
        Some(AiService::Grok)
    } else {
        None
    }
}

/// What to do with an AI request: answer at once, or call a service.
#[derive(Debug)]
pub enum ServiceStep {
    Respond(Reply),
    Call(AiService),
}

/// Checks the AI secret against the `AI_SECRET` variable (`None` when it is
/// not defined) and selects the service for the backend and version, both
/// taken in lowercase.
pub fn handle_ai_service(ai_secret: &str, ai_backend: &str, ai_version: &str, ai_secret_env: Option<&str>) -> (res: Result<ServiceStep, Error>)
    ensures
        ai_secret_env is None <==> res is Err,
        res matches Err(e) ==> e@ == "ERROR: AI_SECRET is not defined."@,
        ai_secret_env matches Some(env) && env@ != ai_secret@ ==> (res matches Ok(ServiceStep::Respond(r)) && r@
            == error_view("Unauthorized"@, 401)),
        ai_secret_env matches Some(env) && env@ == ai_secret@ ==> match service_for(lower_text(ai_backend@), lower_text(ai_version@)) {
            Some(s) => res matches Ok(ServiceStep::Call(c)) && c == s,
            None => res matches Ok(ServiceStep::Respond(r)) && r@ == error_view(
                "AI backend "@ + lower_text(ai_backend@) + " has no version "@ + lower_text(ai_version@),
                404,
            ),
        },
{
    let env = match ai_secret_env {
        Some(env) => env,
        None => return Err(Error::new(owned("ERROR: AI_SECRET is not defined."))),
    };
    if !same_text(ai_secret, env) {
        return Ok(ServiceStep::Respond(error_reply(owned("Unauthorized"), 401)));
    }
    let backend = lower(ai_backend);
    let version = lower(ai_version);
    let v1 = same_text(version.as_str(), "v1");
    if v1 && same_text(backend.as_str(), "chatbot") {
        Ok(ServiceStep::Call(AiService::Chatbot))
    } else if v1 && same_text(backend.as_str(), "google-ai-studio") {
        Ok(ServiceStep::Call(AiService::GoogleAiStudio))
    } else if v1 && same_text(backend.as_str(), "grok") {
        Ok(ServiceStep::Call(AiService::Grok))
    } else {
        let msg = concat4("AI backend ", backend.as_str(), " has no version ", version.as_str());
        Ok(ServiceStep::Respond(error_reply(msg, 404)))
    }
}

} // verus!
