//! Which handler answers a request, from its method and its path.

use vstd::prelude::*;
use crate::text::text_is;

verus! {

/// The request methods that the server tells apart.
#[derive(Clone, Copy, Debug, PartialEq, Eq, Structural)]
pub enum Method {
    Get,
    Post,
    /// Any other method (`PUT`, `DELETE`, ...).
    Other,
}

/// What answers a request.
#[derive(Clone, Copy, Debug, PartialEq, Eq, Structural)]
pub enum Endpoint {
    /// Report the likes.
    GetLike,
    /// Count one more like.
    PostLike,
    /// Report the dislikes.
    GetDislike,
    /// Count one more dislike.
    PostDislike,
    /// Send one page of the comments.
    GetComments,
    /// Store a new comment.
    PostComment,
    /// Answer `404 Not Found`.
    NotFound,
}

/// The path of the like counter.
pub open spec fn like_path() -> Seq<char> {
    "/api/v1/home/like"@
}

/// The path of the dislike counter.
pub open spec fn dislike_path() -> Seq<char> {
    "/api/v1/home/dislike"@
}

/// The path of the comment list.
pub open spec fn comments_path() -> Seq<char> {
    "/api/v1/home/comments"@
}

/// The handler of the counters: `GET` reports a counter and `POST` counts
/// one more, on the like and the dislike paths; anything else is not found.
pub open spec fn counter_endpoint(method: Method, path: Seq<char>) -> Endpoint {
    if path == like_path() {
        match method {
            Method::Get => Endpoint::GetLike,
            Method::Post => Endpoint::PostLike,
            Method::Other => Endpoint::NotFound,
        }
    } else if path == dislike_path() {
        match method {
            Method::Get => Endpoint::GetDislike,
            Method::Post => Endpoint::PostDislike,
            Method::Other => Endpoint::NotFound,
        }
    } else {
        Endpoint::NotFound
    }
}

/// The handler of the comments: `GET` sends a page, `POST` stores one.
pub open spec fn comments_endpoint(method: Method) -> Endpoint {
    match method {
        Method::Get => Endpoint::GetComments,
        Method::Post => Endpoint::PostComment,
        Method::Other => Endpoint::NotFound,
    }
}

/// The handler of any request: the counter paths go to the counters, the
/// comment path to the comments, and every other path is not found.
pub open spec fn endpoint(method: Method, path: Seq<char>) -> Endpoint {
    if path == like_path() || path == dislike_path() {
        counter_endpoint(method, path)
    } else if path == comments_path() {
        comments_endpoint(method)
    } else {
        Endpoint::NotFound
    }
}

/// Chooses what answers a request to one of the counter paths.
pub fn counter_route(method: Method, path: &str) -> (r: Endpoint)
    ensures
        r == counter_endpoint(method, path@),
{
    if text_is(path, "/api/v1/home/like") {
        match method {
            Method::Get => Endpoint::GetLike,
            Method::Post => Endpoint::PostLike,
            Method::Other => Endpoint::NotFound,
        }
    } else if text_is(path, "/api/v1/home/dislike") {
        match method {
            Method::Get => Endpoint::GetDislike,
            Method::Post => Endpoint::PostDislike,
            Method::Other => Endpoint::NotFound,
        }
    } else {
        Endpoint::NotFound
    }
}

/// Chooses what answers a request to the comment path.
pub fn comments_route(method: Method) -> (r: Endpoint)
    ensures
        r == comments_endpoint(method),
{
    match method {
        Method::Get => Endpoint::GetComments,
        Method::Post => Endpoint::PostComment,
        Method::Other => Endpoint::NotFound,
    }
}

/// Chooses what answers a request, from its method and its path.
pub fn route(method: Method, path: &str) -> (r: Endpoint)
    ensures
        r == endpoint(method, path@),
{
    if text_is(path, "/api/v1/home/like") || text_is(path, "/api/v1/home/dislike") {
        counter_route(method, path)
    } else if text_is(path, "/api/v1/home/comments") {
        comments_route(method)
    } else {
        Endpoint::NotFound
    }
}

} // verus!

verus! {

/// Only `GET` and `POST` are answered: any other method on any path is not
/// found.
pub proof fn other_methods_not_found(path: Seq<char>)
    ensures
        endpoint(Method::Other, path) == Endpoint::NotFound,
{
}

/// A path other than the two counter paths and the comment path is not
/// found, whatever the method.
pub proof fn unknown_paths_not_found(method: Method, path: Seq<char>)
    requires
        path != like_path(),
        path != dislike_path(),
        path != comments_path(),
    ensures
        endpoint(method, path) == Endpoint::NotFound,
{
}

/// Reads and writes of a counter go to that counter: `GET` on a counter path
/// reports it and `POST` counts one more of it.
pub proof fn counter_paths_reach_their_counter()
    ensures
        endpoint(Method::Get, like_path()) == Endpoint::GetLike,
        endpoint(Method::Post, like_path()) == Endpoint::PostLike,
        endpoint(Method::Get, dislike_path()) == Endpoint::GetDislike,
        endpoint(Method::Post, dislike_path()) == Endpoint::PostDislike,
        endpoint(Method::Get, comments_path()) == Endpoint::GetComments,
        endpoint(Method::Post, comments_path()) == Endpoint::PostComment,
{
    reveal_strlit("/api/v1/home/like");
    reveal_strlit("/api/v1/home/dislike");
    reveal_strlit("/api/v1/home/comments");
    assert(like_path().len() != dislike_path().len());
    assert(like_path().len() != comments_path().len());
    assert(dislike_path().len() != comments_path().len());
}

} // verus!
