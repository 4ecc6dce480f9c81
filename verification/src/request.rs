//! The description of an outgoing HTTP request, and the methods of incoming ones.

use vstd::prelude::*;

use crate::reply::header_views;

verus! {

/// HTTP request methods, as far as the routes tell them apart.
#[derive(PartialEq, Eq, Structural, Clone, Copy, Debug)]
pub enum Method {
    Get,
    Post,
    Options,
    Other,
}

/// An outgoing request: method, URL, the headers set on it in order, and the body.
#[derive(Debug)]
pub struct HttpRequest {
    pub method: Method,
    pub url: String,
    pub headers: Vec<(String, String)>,
    pub body: Option<String>,
}

impl View for HttpRequest {
    type V = (Method, Seq<char>, Seq<(Seq<char>, Seq<char>)>, Option<Seq<char>>);

    open spec fn view(&self) -> Self::V {
        (
            self.method,
            self.url@,
            header_views(self.headers@),
            match self.body {
                Some(b) => Some(b@),
                None => None,
            },
        )
    }
}

} // verus!
