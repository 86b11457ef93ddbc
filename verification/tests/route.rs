use peterlits_com_server::route::{comments_route, counter_route, route, Endpoint, Method};

#[test]
fn test_unkown() {
    // a PUT on the comments is not found.
    assert_eq!(route(Method::Other, "/api/v1/home/comments"), Endpoint::NotFound);
}

#[test]
fn known_paths_reach_their_handlers() {
    assert_eq!(route(Method::Get, "/api/v1/home/like"), Endpoint::GetLike);
    assert_eq!(route(Method::Post, "/api/v1/home/like"), Endpoint::PostLike);
    assert_eq!(route(Method::Get, "/api/v1/home/dislike"), Endpoint::GetDislike);
    assert_eq!(route(Method::Post, "/api/v1/home/dislike"), Endpoint::PostDislike);
    assert_eq!(route(Method::Get, "/api/v1/home/comments"), Endpoint::GetComments);
    assert_eq!(route(Method::Post, "/api/v1/home/comments"), Endpoint::PostComment);
}

#[test]
fn unknown_requests_not_found() {
    assert_eq!(route(Method::Other, "/api/v1/home/like"), Endpoint::NotFound);
    assert_eq!(route(Method::Other, "/api/v1/home/dislike"), Endpoint::NotFound);
    assert_eq!(route(Method::Get, "/"), Endpoint::NotFound);
    assert_eq!(route(Method::Get, ""), Endpoint::NotFound);
    assert_eq!(route(Method::Get, "/api/v1/home/like/"), Endpoint::NotFound);
    assert_eq!(route(Method::Post, "/api/v1/home/LIKE"), Endpoint::NotFound);
    assert_eq!(route(Method::Get, "/api/v1/home/comment"), Endpoint::NotFound);
}

#[test]
fn counter_and_comment_handlers() {
    assert_eq!(counter_route(Method::Get, "/api/v1/home/comments"), Endpoint::NotFound);
    assert_eq!(counter_route(Method::Post, "/api/v1/home/dislike"), Endpoint::PostDislike);
    assert_eq!(comments_route(Method::Get), Endpoint::GetComments);
    assert_eq!(comments_route(Method::Post), Endpoint::PostComment);
    assert_eq!(comments_route(Method::Other), Endpoint::NotFound);
}
