//! The description of an HTTP reply: status, body and the headers that are
//! set on it, in order.

use vstd::prelude::*;

use crate::text::owned;

verus! {

/// A header list: each `(name, value)` pair is set on the response in order.
pub open spec fn header_views(h: Seq<(String, String)>) -> Seq<(Seq<char>, Seq<char>)> {
    h.map_values(|p: (String, String)| (p.0@, p.1@))
}

/// An HTTP reply. `body` is `None` for an empty body.
#[derive(Debug)]
pub struct Reply {
    pub status: u16,
    pub body: Option<String>,
    pub headers: Vec<(String, String)>,
}

impl View for Reply {
    type V = (u16, Option<Seq<char>>, Seq<(Seq<char>, Seq<char>)>);

    open spec fn view(&self) -> Self::V {
        (
            self.status,
            match self.body {
                Some(b) => Some(b@),
                None => None,
            },
            header_views(self.headers@),
        )
    }
}

/// The reply of `Response::error(msg, status)`: the message as body, no headers.
pub open spec fn error_view(msg: Seq<char>, status: u16) -> (u16, Option<Seq<char>>, Seq<(Seq<char>, Seq<char>)>) {
    (status, Some(msg), Seq::empty())
}

/// A header pair.
pub fn header(name: &str, value: &str) -> (res: (String, String))
    ensures
        res.0@ == name@,
        res.1@ == value@,
{
    (owned(name), owned(value))
}

/// `Response::error(msg, status)`.
pub fn error_reply(msg: String, status: u16) -> (res: Reply)
    ensures
        res@ == error_view(msg@, status),
{
    let res = Reply { status, body: Some(msg), headers: Vec::new() };
    assert(header_views(res.headers@) =~= Seq::empty());
    res
}

} // verus!
