//! The xAI Grok chat-completions service behind the gateway.

use vstd::prelude::*;

use super::var_or_error;
use crate::error::Error;
use crate::json::{json_string, quote_json};
use crate::reply::{header, header_views};
use crate::request::{HttpRequest, Method};
use crate::text::{concat2, owned};

verus! {

/// The gateway endpoint for Grok.
pub const AI_ENDPOINT: &'static str = "https://gateway.ai.cloudflare.com/v1/6d6a8fb1f9f3f38b7374d4974c0743cf/tresr-community/grok";

/// The Grok model that is asked.
pub const AI_MODEL: &'static str = "grok-2-1212";

/// The JSON body of a chat completion: the system prompt, then the user's
/// message, for the Grok model.
pub open spec fn grok_body(prompt: Seq<char>, message: Seq<char>) -> Seq<char> {
    "{\"messages\":[{\"content\":"@ + json_string(prompt) + ",\"role\":\"system\"},{\"content\":"@
        + json_string(message) + ",\"role\":\"user\"}],\"model\":\"grok-2-1212\"}"@
}

/// The request for a chat completion.
pub open spec fn grok_request(prompt: Seq<char>, message: Seq<char>, gateway_token: Seq<char>, api_key: Seq<char>) -> (Method, Seq<char>, Seq<(Seq<char>, Seq<char>)>, Option<Seq<char>>) {
    (
        Method::Post,
        AI_ENDPOINT@ + "/v1/chat/completions"@,
        seq![
            ("Content-Type"@, "application/json"@),
            ("cf-aig-authorization"@, "Bearer "@ + gateway_token),
            ("Authorization"@, "Bearer "@ + api_key),
        ],
        Some(grok_body(prompt, message)),
    )
}

/// Builds the Grok request from the prompt, the message, and the looked-up
/// `CF_AI_GATEWAY_TOKEN` and `GROK_TOKEN` variables (each the value, or the
/// text of the lookup's error). The gateway token is needed first.
pub fn call_ai(prompt: &str, message: &str, gateway_token: Result<String, String>, api_key: Result<String, String>) -> (res: Result<HttpRequest, Error>)
    ensures
        match (gateway_token, api_key) {
            (Err(e), _) => res matches Err(r) && r@ == e@,
            (Ok(_), Err(e)) => res matches Err(r) && r@ == e@,
            (Ok(g), Ok(k)) => res matches Ok(req) && req@ == grok_request(prompt@, message@, g@, k@),
        },
{
    let gateway = var_or_error(gateway_token)?;
    let key = var_or_error(api_key)?;
    let mut body = owned("{\"messages\":[{\"content\":");
    body.append(quote_json(prompt).as_str());
    body.append(",\"role\":\"system\"},{\"content\":");
    body.append(quote_json(message).as_str());
    body.append(",\"role\":\"user\"}],\"model\":\"grok-2-1212\"}");
    let mut headers: Vec<(String, String)> = Vec::new();
    headers.push(header("Content-Type", "application/json"));
    headers.push(header("cf-aig-authorization", concat2("Bearer ", gateway.as_str()).as_str()));
    headers.push(header("Authorization", concat2("Bearer ", key.as_str()).as_str()));
    let req = HttpRequest {
        method: Method::Post,
        url: concat2(AI_ENDPOINT, "/v1/chat/completions"),
        headers,
        body: Some(body),
    };
    assert(header_views(req.headers@) =~= grok_request(prompt@, message@, gateway@, key@).2);
    Ok(req)
}

/// A Grok reply: the message content of each choice, in order.
#[derive(Debug)]
pub struct GrokResponse {
    pub choices: Vec<String>,
}

/// The text of a Grok reply (or the text of the error that parsing it gave):
/// the content of the first choice.
pub fn read_reply(parsed: Result<GrokResponse, String>) -> (res: Result<String, Error>)
    ensures
        match parsed {
            Err(e) => res matches Err(r) && r@ == "Failed to parse Grok response: "@ + e@,
            Ok(g) => if g.choices@.len() == 0 {
                res matches Err(r) && r@ == "No response content from Grok"@
            } else {
                res matches Ok(t) && t@ == g.choices@[0]@
            },
        },
{
    match parsed {
        Err(e) => Err(Error::new(concat2("Failed to parse Grok response: ", e.as_str()))),
        Ok(g) => {
            if g.choices.len() == 0 {
                Err(Error::new(owned("No response content from Grok")))
            } else {
                Ok(g.choices[0].clone())
            }
        },
    }
}

} // verus!
