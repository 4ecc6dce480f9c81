//! Requests to AI services through the Cloudflare AI gateway, and the reply
//! that the chatbot sends back.

pub mod google_ai_studio;
pub mod grok;
pub mod prompt;
pub mod rag;


use vstd::prelude::*;

use crate::ai::{AiService, ServiceStep};
use crate::error::Error;
use crate::json::{json_string, quote_json};
use crate::reply::{header, header_views, Reply};
use crate::text::{concat2, decimal, decimal_text, owned, same_text};

verus! {

/// The outcome of a call to an AI service: its text, or the error.
#[derive(Debug)]
pub enum AIResponse {
    GoogleAI(String),
    Grok(String),
    Invalid(Error),
}

impl AIResponse {
    /// The reply text, or the error.
    pub fn get_response(self) -> (res: Result<String, Error>)
        ensures
            match self {
                AIResponse::GoogleAI(t) => res matches Ok(r) && r@ == t@,
                AIResponse::Grok(t) => res matches Ok(r) && r@ == t@,
                AIResponse::Invalid(e) => res matches Err(r) && r@ == e@,
            },
    {
        match self {
            AIResponse::GoogleAI(text) => Ok(text),
            AIResponse::Grok(text) => Ok(text),
            AIResponse::Invalid(error) => Err(error),
        }
    }
}

/// The JSON body of the chatbot's reply: the message, and either the reply
/// text with a null error or a null reply with the error's text.
pub open spec fn reply_body(message: Seq<char>, outcome: Result<Seq<char>, Seq<char>>) -> Seq<char> {
    match outcome {
        Ok(text) => "{\"error\":null,\"message\":"@ + json_string(message) + ",\"reply\":"@ + json_string(text) + "}"@,
        Err(e) => "{\"error\":"@ + json_string(e) + ",\"message\":"@ + json_string(message) + ",\"reply\":null}"@,
    }
}

/// The reply to an AI request: status 200, the JSON body, and a JSON content type.
pub fn ai_reply(message: &str, outcome: Result<String, Error>) -> (res: Reply)
    ensures
        res@ == (200u16, Some(reply_body(message@, match outcome {
            Ok(t) => Ok(t@),
            Err(e) => Err(e@),
        })), seq![("Content-Type"@, "application/json; charset=utf-8"@)]),
{
    let mut body: String;
    match outcome {
        Ok(text) => {
            body = owned("{\"error\":null,\"message\":");
            body.append(quote_json(message).as_str());
            body.append(",\"reply\":");
            body.append(quote_json(text.as_str()).as_str());
            body.append("}");
        },
        Err(e) => {
            body = owned("{\"error\":");
            body.append(quote_json(e.message.as_str()).as_str());
            body.append(",\"message\":");
            body.append(quote_json(message).as_str());
            body.append(",\"reply\":null}");
        },
    }
    let mut headers: Vec<(String, String)> = Vec::new();
    headers.push(header("Content-Type", "application/json; charset=utf-8"));
    let res = Reply { status: 200, body: Some(body), headers };
    assert(header_views(res.headers@) =~= seq![("Content-Type"@, "application/json; charset=utf-8"@)]);
    res
}

/// Serves an AI request of the given type: the gateway services are called,
/// any other type is answered at once with an error reply.
pub fn handle_ai(message: &str, ai_type: &str) -> (res: ServiceStep)
    ensures
        ai_type@ == "google-ai-studio"@ ==> res == ServiceStep::Call(AiService::GoogleAiStudio),
        ai_type@ == "grok"@ ==> res == ServiceStep::Call(AiService::Grok),
        ai_type@ != "google-ai-studio"@ && ai_type@ != "grok"@ ==> (res matches ServiceStep::Respond(r)
            && r@ == (200u16, Some(reply_body(message@, Err("Invalid AI type: "@ + ai_type@))), seq![
            ("Content-Type"@, "application/json; charset=utf-8"@)])),
{
    proof {
        reveal_strlit("google-ai-studio");
        reveal_strlit("grok");
        assert("grok"@.len() == 4);
        assert("google-ai-studio"@.len() == 16);
    }
    if same_text(ai_type, "google-ai-studio") {
        ServiceStep::Call(AiService::GoogleAiStudio)
    } else if same_text(ai_type, "grok") {
        ServiceStep::Call(AiService::Grok)
    } else {
        let e = Error::new(concat2("Invalid AI type: ", ai_type));
        ServiceStep::Respond(ai_reply(message, Err(e)))
    }
}

/// Whether a gateway reply's status counts as success (200 to 299).
pub fn is_success(status: u16) -> (res: bool)
    ensures
        res == (200 <= status <= 299),
{
    200 <= status && status <= 299
}

/// The error for a gateway reply with a failing status and its body text.
pub fn request_failure(status: u16, error_text: &str) -> (res: Error)
    ensures
        res@ == "API request failed: "@ + decimal(status as nat) + " - "@ + error_text@,
{
    let mut m = owned("API request failed: ");
    m.append(decimal_text(status as usize).as_str());
    m.append(" - ");
    m.append(error_text);
    Error::new(m)
}

/// The outcome of a gateway reply from its status and the reading of its
/// body text: a failing status gives the request failure with the body text
/// (empty when it could not be read); a successful one gives the body text,
/// or the error of reading it.
pub fn gateway_reply(status: u16, text: Result<String, String>) -> (res: Result<String, Error>)
    ensures
        !(200 <= status <= 299) ==> (res matches Err(e) && e@ == "API request failed: "@ + decimal(status as nat) + " - "@ + match text {
            Ok(t) => t@,
            Err(_) => Seq::<char>::empty(),
        }),
        200 <= status <= 299 ==> match text {
            Ok(t) => res matches Ok(r) && r@ == t@,
            Err(e) => res matches Err(r) && r@ == e@,
        },
{
    if !is_success(status) {
        let error_text = match text {
            Ok(t) => t,
            Err(_) => String::new(),
        };
        return Err(request_failure(status, error_text.as_str()));
    }
    match text {
        Ok(t) => Ok(t),
        Err(e) => Err(Error::new(e)),
    }
}

/// The value of a looked-up variable, or the error of the lookup.
pub fn var_or_error(lookup: Result<String, String>) -> (res: Result<String, Error>)
    ensures
        match lookup {
            Ok(v) => res matches Ok(r) && r@ == v@,
            Err(e) => res matches Err(r) && r@ == e@,
        },
{
    match lookup {
        Ok(v) => Ok(v),
        Err(e) => Err(Error::new(e)),
    }
}

} // verus!
