//! The Google AI Studio (Gemini) service behind the gateway.

use vstd::prelude::*;

use super::var_or_error;
use crate::error::Error;
use crate::json::{json_string, quote_json};
use crate::reply::{header, header_views};
use crate::request::{HttpRequest, Method};
use crate::text::{concat2, concat3, join_on, owned, string_views};

verus! {

/// The gateway endpoint for Google AI Studio.
pub const AI_ENDPOINT: &'static str = "https://gateway.ai.cloudflare.com/v1/6d6a8fb1f9f3f38b7374d4974c0743cf/tresr-community/google-ai-studio";

/// The Gemini model that is asked.
pub const AI_MODEL: &'static str = "gemini-1.5-pro";

/// The JSON body of a content generation. The payload names a `system` role
/// with the prompt and a `user` role with the message in one object; the
/// later keys win, so only the user's message is sent.
pub open spec fn google_body(message: Seq<char>) -> Seq<char> {
    "{\"contents\":[{\"parts\":[{\"text\":"@ + json_string(message) + "}],\"role\":\"user\"}]}"@
}

/// The request for a content generation.
pub open spec fn google_request(message: Seq<char>, gateway_token: Seq<char>, api_key: Seq<char>) -> (Method, Seq<char>, Seq<(Seq<char>, Seq<char>)>, Option<Seq<char>>) {
    (
        Method::Post,
        AI_ENDPOINT@ + "/v1/models/"@ + AI_MODEL@ + ":generateContent"@,
        seq![
            ("Content-Type"@, "application/json"@),
            ("cf-aig-authorization"@, "Bearer "@ + gateway_token),
            ("x-goog-api-key"@, api_key),
        ],
        Some(google_body(message)),
    )
}

/// Builds the Google AI Studio request from the prompt, the message, and the
/// looked-up `CF_AI_GATEWAY_TOKEN` and `GOOGLE_AI_STUDIO_TOKEN` variables
/// (each the value, or the text of the lookup's error).
pub fn call_ai(prompt: &str, message: &str, gateway_token: Result<String, String>, api_key: Result<String, String>) -> (res: Result<HttpRequest, Error>)
    ensures
        match (gateway_token, api_key) {
            (Err(e), _) => res matches Err(r) && r@ == e@,
            (Ok(_), Err(e)) => res matches Err(r) && r@ == e@,
            (Ok(g), Ok(k)) => res matches Ok(req) && req@ == google_request(message@, g@, k@),
        },
{
    let gateway = var_or_error(gateway_token)?;
    let key = var_or_error(api_key)?;
    let mut body = owned("{\"contents\":[{\"parts\":[{\"text\":");
    body.append(quote_json(message).as_str());
    body.append("}],\"role\":\"user\"}]}");
    let mut headers: Vec<(String, String)> = Vec::new();
    headers.push(header("Content-Type", "application/json"));
    headers.push(header("cf-aig-authorization", concat2("Bearer ", gateway.as_str()).as_str()));
    headers.push(header("x-goog-api-key", key.as_str()));
    let mut url = concat3(AI_ENDPOINT, "/v1/models/", AI_MODEL);
    url.append(":generateContent");
    let req = HttpRequest { method: Method::Post, url, headers, body: Some(body) };
    assert(header_views(req.headers@) =~= google_request(message@, gateway@, key@).2);
    Ok(req)
}

/// A Google AI Studio reply: for each candidate, the texts of its parts.
#[derive(Debug)]
pub struct GoogleAIResponse {
    pub candidates: Vec<Vec<String>>,
}

/// The part texts of all candidates, in order.
pub open spec fn all_parts(candidates: Seq<Vec<String>>) -> Seq<Seq<char>>
    decreases candidates.len(),
{
    if candidates.len() == 0 {
        Seq::empty()
    } else {
        all_parts(candidates.drop_last()) + string_views(candidates.last()@)
    }
}

/// The text of a Google AI Studio reply (or the text of the error that
/// parsing it gave): all part texts of all candidates, joined by newlines.
pub fn read_reply(parsed: Result<GoogleAIResponse, String>) -> (res: Result<String, Error>)
    ensures
        match parsed {
            Err(e) => res matches Err(r) && r@ == "Failed to parse AI response: "@ + e@,
            Ok(g) => res matches Ok(t) && t@ == join_on(all_parts(g.candidates@), '\n'),
        },
{
    match parsed {
        Err(e) => Err(Error::new(concat2("Failed to parse AI response: ", e.as_str()))),
        Ok(g) => {
            let mut out = String::new();
            let mut any = false;
            let mut i: usize = 0;
            while i < g.candidates.len()
                invariant
                    i <= g.candidates.len(),
                    any == (all_parts(g.candidates@.take(i as int)).len() > 0),
                    out@ == join_on(all_parts(g.candidates@.take(i as int)), '\n'),
                decreases g.candidates.len() - i,
            {
                let parts = &g.candidates[i];
                let ghost before = all_parts(g.candidates@.take(i as int));
                assert(g.candidates@.take(i + 1).drop_last() =~= g.candidates@.take(i as int));
                let mut j: usize = 0;
                while j < parts.len()
                    invariant
                        j <= parts.len(),
                        any == (before.len() + j > 0),
                        out@ == join_on(before + string_views(parts@.take(j as int)), '\n'),
                    decreases parts.len() - j,
                {
                    let ghost done = before + string_views(parts@.take(j as int));
                    let ghost next = before + string_views(parts@.take(j + 1));
                    assert(next =~= done.push(parts@[j as int]@));
                    assert(next.drop_last() =~= done);
                    if any {
                        push_newline(&mut out);
                    } else {
                        assert(done.len() == 0);
                    }
                    out.append(parts[j].as_str());
                    any = true;
                    j = j + 1;
                }
                assert(parts@.take(parts.len() as int) =~= parts@);
                i = i + 1;
            }
            assert(g.candidates@.take(g.candidates.len() as int) =~= g.candidates@);
            Ok(out)
        },
    }
}

/// Appends a newline.
fn push_newline(s: &mut String)
    ensures
        final(s)@ == old(s)@.push('\n'),
{
    crate::text::push_char(s, '\n');
}

} // verus!
