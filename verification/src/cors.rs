//! Cross-origin checks and the headers that go with them.

use vstd::prelude::*;

use crate::error::Error;
use crate::reply::{error_reply, header, header_views, Reply};
use crate::text::{
    char_views, chars_of, is_white_space, lemma_words_concat, lemma_words_found, lemma_words_single, owned,
    same_text, string_of, word_at, words, words_of,
};

verus! {

/// The security and CORS headers that `add_headers` sets, in order.
pub open spec fn cors_headers(origin: Seq<char>) -> Seq<(Seq<char>, Seq<char>)> {
    seq![
        ("X-XSS-Protection"@, "1; mode=block"@),
        ("X-Content-Type-Options"@, "nosniff"@),
        ("X-Frame-Options"@, "DENY"@),
        ("Referrer-Policy"@, "unsafe-url"@),
        ("Permissions-Policy"@, "geolocation=(self), fullscreen=()"@),
        ("Access-Control-Allow-Origin"@, origin),
        ("Cache-Control"@, "public, max-age=86400"@),
        ("Vary"@, "Origin"@),
        ("Content-Security-Policy"@, "frame-ancestors 'self'"@),
    ]
}

/// The headers of a response after the pairs of a header list are set on it
/// in order, starting from `start`: each set replaces the value under its name.
pub open spec fn apply_headers(start: Map<Seq<char>, Seq<char>>, list: Seq<(Seq<char>, Seq<char>)>) -> Map<Seq<char>, Seq<char>>
    decreases list.len(),
{
    if list.len() == 0 {
        start
    } else {
        apply_headers(start, list.drop_last()).insert(list.last().0, list.last().1)
    }
}

/// The value that the last pair with name `name` in a list sets, if any.
pub open spec fn last_set(list: Seq<(Seq<char>, Seq<char>)>, name: Seq<char>) -> Option<Seq<char>>
    decreases list.len(),
{
    if list.len() == 0 {
        None
    } else if list.last().0 == name {
        Some(list.last().1)
    } else {
        last_set(list.drop_last(), name)
    }
}

proof fn lemma_apply_lookup(start: Map<Seq<char>, Seq<char>>, list: Seq<(Seq<char>, Seq<char>)>, name: Seq<char>)
    ensures
        match last_set(list, name) {
            Some(v) => apply_headers(start, list).contains_key(name) && apply_headers(start, list)[name] == v,
            None => apply_headers(start, list).contains_key(name) == start.contains_key(name)
                && (start.contains_key(name) ==> apply_headers(start, list)[name] == start[name]),
        },
    decreases list.len(),
{
    if list.len() > 0 {
        lemma_apply_lookup(start, list.drop_last(), name);
    }
}

proof fn lemma_apply_twice(start: Map<Seq<char>, Seq<char>>, list: Seq<(Seq<char>, Seq<char>)>)
    ensures
        apply_headers(apply_headers(start, list), list) == apply_headers(start, list),
{
    let once = apply_headers(start, list);
    let twice = apply_headers(once, list);
    assert forall|k: Seq<char>| #[trigger] twice.contains_key(k) == once.contains_key(k) && (once.contains_key(k) ==> twice[k] == once[k]) by {
        lemma_apply_lookup(start, list, k);
        lemma_apply_lookup(once, list, k);
    }
    assert(twice =~= once);
}

proof fn lemma_apply_concat(start: Map<Seq<char>, Seq<char>>, a: Seq<(Seq<char>, Seq<char>)>, b: Seq<(Seq<char>, Seq<char>)>)
    ensures
        apply_headers(start, a + b) == apply_headers(apply_headers(start, a), b),
    decreases b.len(),
{
    if b.len() == 0 {
        assert(a + b =~= a);
    } else {
        assert((a + b).drop_last() =~= a + b.drop_last());
        lemma_apply_concat(start, a, b.drop_last());
    }
}

/// Adding the security and CORS headers twice leaves a response's headers as
/// adding them once, and headers of other names keep their values.
pub proof fn lemma_add_headers_idempotent(
    start: Map<Seq<char>, Seq<char>>,
    before: Seq<(Seq<char>, Seq<char>)>,
    origin: Seq<char>,
)
    ensures
        apply_headers(start, before + cors_headers(origin) + cors_headers(origin)) == apply_headers(
            start,
            before + cors_headers(origin),
        ),
        forall|name: Seq<char>| #[trigger] last_set(cors_headers(origin), name) is None ==> (
            apply_headers(start, before + cors_headers(origin)).contains_key(name) == apply_headers(start, before).contains_key(name)
            && (apply_headers(start, before).contains_key(name) ==> apply_headers(start, before + cors_headers(origin))[name]
                == apply_headers(start, before)[name])),
{
    let c = cors_headers(origin);
    lemma_apply_concat(start, before + c, c);
    lemma_apply_concat(start, before, c);
    lemma_apply_twice(apply_headers(start, before), c);
    assert forall|name: Seq<char>| #[trigger] last_set(c, name) is None implies (
        apply_headers(start, before + c).contains_key(name) == apply_headers(start, before).contains_key(name)
        && (apply_headers(start, before).contains_key(name) ==> apply_headers(start, before + c)[name]
            == apply_headers(start, before)[name])) by {
        lemma_apply_lookup(apply_headers(start, before), c, name);
    }
}

/// Adds the security and CORS headers for `origin` to a reply's header list.
pub fn add_headers(headers: &mut Vec<(String, String)>, origin: &str)
    ensures
        header_views(final(headers)@) == header_views(old(headers)@) + cors_headers(origin@),
{
    let ghost start = header_views(headers@);
    headers.push(header("X-XSS-Protection", "1; mode=block"));
    headers.push(header("X-Content-Type-Options", "nosniff"));
    headers.push(header("X-Frame-Options", "DENY"));
    headers.push(header("Referrer-Policy", "unsafe-url"));
    headers.push(header("Permissions-Policy", "geolocation=(self), fullscreen=()"));
    headers.push(header("Access-Control-Allow-Origin", origin));
    headers.push(header("Cache-Control", "public, max-age=86400"));
    headers.push(header("Vary", "Origin"));
    headers.push(header("Content-Security-Policy", "frame-ancestors 'self'"));
    assert(header_views(headers@) =~= start + cors_headers(origin@));
}

/// A comma read as a space; any other character as itself.
pub open spec fn comma_as_space(c: char) -> char {
    if c == ',' { ' ' } else { c }
}

/// The entries of an allowed-origins list: the pieces of its text between
/// commas and white space.
pub open spec fn origin_entries(allowed: Seq<char>) -> Seq<Seq<char>> {
    words(allowed.map_values(|c: char| comma_as_space(c)))
}

/// A separator between the entries of an allowed-origins list: a comma or
/// white space.
pub open spec fn list_separator(c: char) -> bool {
    c == ',' || is_white_space(c)
}

/// The outcome of `check_origin` for the request's `Origin` header (empty
/// when absent) and the `ALLOWED_ORIGINS` variable (`None` when undefined):
/// the origin must be one of the entries of the list, character for
/// character.
pub open spec fn origin_check(origin: Seq<char>, allowed_origins: Option<Seq<char>>) -> Result<(), Seq<char>> {
    if origin.len() == 0 {
        Err("Bad Request: 'Origin' header is missing"@)
    } else {
        match allowed_origins {
            None => Err("ERROR: ALLOWED_ORIGINS is not defined."@),
            Some(allowed) => if origin_entries(allowed).contains(origin) {
                Ok(())
            } else {
                Err("Origin not allowed"@)
            },
        }
    }
}

/// The allowed-origins variable as an optional view.
pub open spec fn opt_view(v: Option<&str>) -> Option<Seq<char>> {
    match v {
        Some(s) => Some(s@),
        None => None,
    }
}

/// The text with each comma replaced by a space.
fn commas_to_spaces(s: &str) -> (res: String)
    ensures
        res@ == s@.map_values(|c: char| comma_as_space(c)),
{
    let cs = chars_of(s);
    let mut out: Vec<char> = Vec::new();
    let mut i: usize = 0;
    while i < cs.len()
        invariant
            i <= cs.len(),
            cs@ == s@,
            out@ == s@.take(i as int).map_values(|c: char| comma_as_space(c)),
        decreases cs.len() - i,
    {
        let c = cs[i];
        out.push(if c == ',' { ' ' } else { c });
        assert(s@.take(i + 1).map_values(|c: char| comma_as_space(c)) =~= s@.take(i as int).map_values(
            |c: char| comma_as_space(c),
        ).push(comma_as_space(c)));
        i = i + 1;
    }
    assert(s@.take(cs.len() as int) =~= s@);
    string_of(&out)
}

/// Whether the origin is one of the entries of the allowed-origins list.
fn listed(origin: &str, allowed: &str) -> (res: bool)
    ensures
        res == origin_entries(allowed@).contains(origin@),
{
    let spaced = commas_to_spaces(allowed);
    let entries = words_of(spaced.as_str());
    let mut i: usize = 0;
    while i < entries.len()
        invariant
            i <= entries.len(),
            char_views(entries@) == origin_entries(allowed@),
            forall|j: int| 0 <= j < i ==> #[trigger] char_views(entries@)[j] != origin@,
        decreases entries.len() - i,
    {
        let entry = string_of(&entries[i]);
        if same_text(entry.as_str(), origin) {
            assert(char_views(entries@)[i as int] == origin@);
            return true;
        }
        assert(char_views(entries@)[i as int] == entries@[i as int]@);
        i = i + 1;
    }
    false
}

/// Checks that the origin is present and is one of the entries of the
/// allowed-origins list.
pub fn check_origin(origin: &str, allowed_origins: Option<&str>) -> (res: Result<(), Error>)
    ensures
        match origin_check(origin@, opt_view(allowed_origins)) {
            Ok(()) => res is Ok,
            Err(m) => res matches Err(e) && e@ == m,
        },
{
    if origin.is_empty() {
        return Err(Error::new(owned("Bad Request: 'Origin' header is missing")));
    }
    match allowed_origins {
        None => Err(Error::new(owned("ERROR: ALLOWED_ORIGINS is not defined."))),
        Some(allowed) => {
            if listed(origin, allowed) {
                Ok(())
            } else {
                Err(Error::new(owned("Origin not allowed")))
            }
        },
    }
}

/// Every entry of an allowed-origins list is accepted: an origin with no
/// comma or white space in it that stands in the list between separators
/// (or at its edges) passes the check, whatever else the list holds.
pub proof fn lemma_listed_origin_accepted(before: Seq<char>, origin: Seq<char>, after: Seq<char>)
    requires
        origin.len() > 0,
        forall|t: int| 0 <= t < origin.len() ==> !list_separator(#[trigger] origin[t]),
        before.len() == 0 || list_separator(before.last()),
        after.len() == 0 || list_separator(after[0]),
    ensures
        origin_check(origin, Some(before + origin + after)) is Ok,
{
    let ma = before.map_values(|c: char| comma_as_space(c));
    let mb = after.map_values(|c: char| comma_as_space(c));
    assert(origin.map_values(|c: char| comma_as_space(c)) =~= origin);
    assert((before + origin + after).map_values(|c: char| comma_as_space(c)) =~= ma + (origin + mb));
    assert(forall|t: int| 0 <= t < origin.len() ==> !is_white_space(#[trigger] origin[t]));
    if before.len() > 0 {
        assert(ma.last() == comma_as_space(before.last()));
    }
    if after.len() > 0 {
        assert(mb[0] == comma_as_space(after[0]));
    }
    lemma_words_concat(ma, origin + mb);
    if mb.len() > 0 {
        assert((origin + mb)[origin.len() as int] == mb[0]);
    }
    assert(origin + mb =~= origin + mb);
    lemma_words_concat(origin, mb);
    lemma_words_single(origin);
    let entries = origin_entries(before + origin + after);
    assert(entries == words(ma) + (seq![origin] + words(mb)));
    assert(entries[words(ma).len() as int] == origin);
}

/// Only entries of an allowed-origins list are accepted: an origin that
/// passes the check is non-empty, holds no comma or white space, and stands
/// in the list as a whole entry, with a separator (or the list's edge) on
/// either side; so no part of an entry passes on its own.
pub proof fn lemma_accepted_origin_listed(origin: Seq<char>, allowed: Seq<char>)
    requires
        origin_check(origin, Some(allowed)) is Ok,
    ensures
        origin.len() > 0,
        forall|t: int| 0 <= t < origin.len() ==> !list_separator(#[trigger] origin[t]),
        exists|i: int|
            0 <= i && i + origin.len() <= allowed.len() && #[trigger] allowed.subrange(i, i + origin.len()) == origin
                && (i == 0 || list_separator(allowed[i - 1])) && (i + origin.len() == allowed.len()
                || list_separator(allowed[i + origin.len()])),
{
    let m = allowed.map_values(|c: char| comma_as_space(c));
    lemma_words_found(m);
    let j = choose|j: int| 0 <= j < words(m).len() && words(m)[j] == origin;
    assert(words(m)[j] == origin);
    let i = choose|i: int| word_at(m, words(m)[j], i) && (j + 1 < words(m).len() ==> i + words(m)[j].len() < m.len());
    assert(word_at(m, origin, i));
    assert forall|t: int| 0 <= t < origin.len() implies allowed[i + t] == origin[t] && !list_separator(
        #[trigger] origin[t],
    ) by {
        assert(m.subrange(i, i + origin.len())[t] == m[i + t]);
        assert(m[i + t] == comma_as_space(allowed[i + t]));
        assert(!is_white_space(origin[t]));
    }
    assert(allowed.subrange(i, i + origin.len()) =~= origin);
    if i > 0 {
        assert(m[i - 1] == comma_as_space(allowed[i - 1]));
    }
    if i + origin.len() < allowed.len() {
        assert(m[i + origin.len()] == comma_as_space(allowed[i + origin.len()]));
    }
}

/// The headers of a successful preflight reply, in order.
pub open spec fn preflight_headers(origin: Seq<char>) -> Seq<(Seq<char>, Seq<char>)> {
    seq![
        ("Access-Control-Allow-Origin"@, origin),
        ("Access-Control-Allow-Methods"@, "GET, POST, OPTIONS"@),
        ("Access-Control-Allow-Headers"@, "Content-Type"@),
        ("Access-Control-Max-Age"@, "86400"@),
        ("Vary"@, "Origin, Access-Control-Request-Headers"@),
    ]
}

/// The reply to a CORS preflight request.
pub open spec fn preflight_view(origin: Seq<char>, allowed_origins: Option<Seq<char>>) -> (u16, Option<Seq<char>>, Seq<(Seq<char>, Seq<char>)>) {
    if origin_check(origin, allowed_origins) is Ok {
        (200u16, None, preflight_headers(origin))
    } else {
        (403u16, Some("Forbidden"@), Seq::empty())
    }
}

/// A preflight succeeds exactly for the origins that `check_origin` accepts,
/// and then allows that origin and no other.
pub proof fn lemma_preflight_agrees(origin: Seq<char>, allowed_origins: Option<Seq<char>>)
    ensures
        (preflight_view(origin, allowed_origins).0 == 200) == (origin_check(origin, allowed_origins) is Ok),
        origin_check(origin, allowed_origins) is Ok ==> preflight_view(origin, allowed_origins).2[0] == (
        "Access-Control-Allow-Origin"@, origin),
{
}

/// Answers a CORS preflight request: `403 Forbidden` when the origin is not
/// allowed, else an empty reply that allows it.
pub fn preflight(origin: &str, allowed_origins: Option<&str>) -> (res: Reply)
    ensures
        res@ == preflight_view(origin@, opt_view(allowed_origins)),
{
    if check_origin(origin, allowed_origins).is_err() {
        return error_reply(owned("Forbidden"), 403);
    }
    let mut headers: Vec<(String, String)> = Vec::new();
    headers.push(header("Access-Control-Allow-Origin", origin));
    headers.push(header("Access-Control-Allow-Methods", "GET, POST, OPTIONS"));
    headers.push(header("Access-Control-Allow-Headers", "Content-Type"));
    headers.push(header("Access-Control-Max-Age", "86400"));
    headers.push(header("Vary", "Origin, Access-Control-Request-Headers"));
    let res = Reply { status: 200, body: None, headers };
    assert(header_views(res.headers@) =~= preflight_headers(origin@));
    res
}

} // verus!
