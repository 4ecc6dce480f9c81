//! The worker's routes and how a request path selects one.

pub mod admin;
pub mod api;

pub mod health;

use vstd::prelude::*;

use crate::text::{has_prefix, starts_with_text};

verus! {

/// The route families of the worker.
#[derive(PartialEq, Eq, Structural, Clone, Copy, Debug)]
pub enum Route {
    /// `/ai/admin/rag-index...`: indexing the documentation.
    RagIndex,
    /// `/ai/...`: AI requests.
    Api,
    /// Everything else: the health check, or not found.
    Other,
}

/// The route for a path: the indexing prefix is tried before the AI prefix.
pub open spec fn route_for(path: Seq<char>) -> Route {
    if has_prefix(path, "/ai/admin/rag-index"@) {
        Route::RagIndex
    } else if has_prefix(path, "/ai/"@) {
        Route::Api
    } else {
        Route::Other
    }
}

/// Indexing paths are never served as AI requests, and every AI or indexing
/// path starts with `/ai/`.
pub proof fn lemma_routes_disjoint(path: Seq<char>)
    ensures
        route_for(path) == Route::Api ==> !has_prefix(path, "/ai/admin/rag-index"@),
        route_for(path) != Route::Other ==> has_prefix(path, "/ai/"@),
{
    reveal_strlit("/ai/admin/rag-index");
    reveal_strlit("/ai/");
    if has_prefix(path, "/ai/admin/rag-index"@) {
        assert(path.subrange(0, 4) =~= path.subrange(0, 19).subrange(0, 4));
        assert("/ai/admin/rag-index"@.subrange(0, 4) =~= "/ai/"@);
    }
}

/// Selects the route for a request path.
pub fn select_route(path: &str) -> (res: Route)
    ensures
        res == route_for(path@),
{
    if starts_with_text(path, "/ai/admin/rag-index") {
        Route::RagIndex
    } else if starts_with_text(path, "/ai/") {
        Route::Api
    } else {
        Route::Other
    }
}

} // verus!
