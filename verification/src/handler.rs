//! Shared handlers: the fallback reply and query parameters.

use vstd::prelude::*;

use crate::reply::{error_reply, error_view, Reply};
use crate::text::{owned, same_text};

verus! {

/// The reply for a route that does not exist.
pub fn handle_404() -> (res: Reply)
    ensures
        res@ == error_view("Not Found"@, 404),
{
    error_reply(owned("Not Found"), 404)
}

/// The views of a list of key/value pairs.
pub open spec fn pair_views(v: Seq<(String, String)>) -> Seq<(Seq<char>, Seq<char>)> {
    v.map_values(|p: (String, String)| (p.0@, p.1@))
}

/// The value of the first pair whose key is `key`, if any.
pub open spec fn first_value(pairs: Seq<(Seq<char>, Seq<char>)>, key: Seq<char>) -> Option<Seq<char>>
    decreases pairs.len(),
{
    if pairs.len() == 0 {
        None
    } else if pairs[0].0 == key {
        Some(pairs[0].1)
    } else {
        first_value(pairs.drop_first(), key)
    }
}

/// The value of the query parameter `param` among the decoded query pairs,
/// or `default` when there are no pairs or none has that key.
pub open spec fn query_param(pairs: Seq<(Seq<char>, Seq<char>)>, param: Seq<char>, default: Seq<char>) -> Seq<char> {
    match first_value(pairs, param) {
        Some(v) => v,
        None => default,
    }
}

/// The pairs that `url::form_urlencoded::parse` decodes from a query string
/// (what `Url::query_pairs` yields for a URL with that query).
pub uninterp spec fn form_pairs(query: Seq<char>) -> Seq<(Seq<char>, Seq<char>)>;

/// `url::form_urlencoded::parse`, with each decoded pair taken as owned
/// strings; the pairs are the ones named `form_pairs` of the query.
#[verifier::external_body]
fn query_pairs(query: &str) -> (res: Vec<(String, String)>)
    ensures
        pair_views(res@) == form_pairs(query@),
{
    url::form_urlencoded::parse(query.as_bytes()).into_owned().collect()
}

/// Picks the value of `param` out of decoded query pairs, or `default`.
pub fn find_query_param(pairs: &Vec<(String, String)>, param: &str, default: &str) -> (res: String)
    ensures
        res@ == query_param(pair_views(pairs@), param@, default@),
{
    let ghost all = pair_views(pairs@);
    let mut i: usize = 0;
    assert(all.skip(0) =~= all);
    while i < pairs.len()
        invariant
            i <= pairs.len(),
            all == pair_views(pairs@),
            first_value(all, param@) == first_value(all.skip(i as int), param@),
        decreases pairs.len() - i,
    {
        assert(all.skip(i as int).drop_first() =~= all.skip(i + 1));
        assert(all.skip(i as int)[0] == all[i as int]);
        if same_text(pairs[i].0.as_str(), param) {
            return pairs[i].1.clone();
        }
        i = i + 1;
    }
    assert(all.skip(i as int).len() == 0);
    owned(default)
}

/// Extracts the query parameter `param` from a URL's query string (`""` when
/// the URL has none), returning `default` when it is not there.
pub fn extract_query_param(query: &str, param: &str, default: &str) -> (res: String)
    ensures
        res@ == query_param(form_pairs(query@), param@, default@),
{
    let pairs = query_pairs(query);
    find_query_param(&pairs, param, default)
}

} // verus!
