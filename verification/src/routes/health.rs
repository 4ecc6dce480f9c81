//! The health check.

use vstd::prelude::*;

use crate::reply::{header, header_views, Reply};
use crate::text::owned;

verus! {

/// The headers of the health check reply, in order.
pub open spec fn health_headers() -> Seq<(Seq<char>, Seq<char>)> {
    seq![
        ("Content-Type"@, "text/plain; charset=utf-8"@),
        ("Cache-Control"@, "no-store, no-cache, must-revalidate"@),
        ("Pragma"@, "no-cache"@),
        ("X-Content-Type-Options"@, "nosniff"@),
        ("X-Frame-Options"@, "DENY"@),
        ("X-XSS-Protection"@, "1; mode=block"@),
    ]
}

/// Answers the health check with `OK` and headers that forbid caching.
pub fn handle_get() -> (res: Reply)
    ensures
        res@ == (200u16, Some("OK"@), health_headers()),
{
    let mut headers: Vec<(String, String)> = Vec::new();
    headers.push(header("Content-Type", "text/plain; charset=utf-8"));
    headers.push(header("Cache-Control", "no-store, no-cache, must-revalidate"));
    headers.push(header("Pragma", "no-cache"));
    headers.push(header("X-Content-Type-Options", "nosniff"));
    headers.push(header("X-Frame-Options", "DENY"));
    headers.push(header("X-XSS-Protection", "1; mode=block"));
    let res = Reply { status: 200, body: Some(owned("OK")), headers };
    assert(header_views(res.headers@) =~= health_headers());
    res
}

} // verus!
