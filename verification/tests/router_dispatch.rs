//! The route table: registration, dispatch, misses, parameters, and the
//! head-of-line readiness queue.

use tower_rpc::http::Verb;
use tower_rpc::router::{
    Keyed, RouteError, RouteInsertError, RouteMatch, RouteService, Unkeyed,
};

#[test]
fn keyed_dispatch_hits_the_registered_service() {
    // Services are the deltas their handlers add.
    let router: RouteService<i64, i64, Keyed<Verb>> = RouteService::with_keys();
    let router = router.try_with_route(Verb::Post, "/a", 1).unwrap();
    let mut router = router.try_with_route(Verb::Get, "/b", 10).unwrap();

    let idx = router.select_route(&Verb::Post, "/a").unwrap();
    assert_eq!(router.services[idx] + 5, 6);

    let idx = router.select_route(&Verb::Get, "/b").unwrap();
    assert_eq!(router.services[idx] + 5, 15);

    assert_eq!(router.select_route(&Verb::Post, "/b"), Err(RouteError::NotFound));
}

#[test]
fn unknown_key_is_its_own_error() {
    let router: RouteService<i64, i64, Keyed<Verb>> = RouteService::with_keys();
    let mut router = router.try_with_route(Verb::Post, "/a", 1).unwrap();
    assert_eq!(router.select_route(&Verb::Delete, "/a"), Err(RouteError::UnknownKey));
}

#[test]
fn unkeyed_dispatch() {
    let router: RouteService<i64, i64> = RouteService::new();
    let router = router.try_with_route_unkeyed("/sum", 3).unwrap();
    let mut router = router.try_with_route_unkeyed("/inc", 1).unwrap();
    let idx = router.select_route(&(), "/inc").unwrap();
    assert_eq!(router.services[idx], 1);
    let idx = router.select_route(&(), "/sum").unwrap();
    assert_eq!(router.services[idx], 3);
    assert_eq!(router.select_route(&(), "/none"), Err(RouteError::NotFound));
}

#[test]
fn duplicate_pattern_conflicts() {
    let router: RouteService<i64, i64> = RouteService::new();
    let router = router.try_with_route_unkeyed("/a", 1).unwrap();
    match router.try_with_route_unkeyed("/a", 2) {
        Err(RouteInsertError::Conflict { with }) => assert_eq!(with, "/a"),
        other => panic!("expected a conflict, got {:?}", other.is_ok()),
    }
}

#[test]
fn trailing_slash_misses_are_distinguished() {
    let router: RouteService<i64, i64> = RouteService::new();
    let router = router.try_with_route_unkeyed("/home", 1).unwrap();
    let mut router = router.try_with_route_unkeyed("/blog/", 2).unwrap();
    assert_eq!(router.select_route(&(), "/home/"), Err(RouteError::ExtraTrailingSlash));
    assert_eq!(router.select_route(&(), "/blog"), Err(RouteError::MissingTrailingSlash));
}

#[test]
fn param_routes_capture_segments() {
    let router: RouteService<i64, i64> = RouteService::new();
    let mut router = router.try_with_route_unkeyed("/users/:id", 7).unwrap();
    let idx = router.select_route(&(), "/users/978").unwrap();
    assert_eq!(router.services[idx], 7);

    let trie = router.router_for(&()).unwrap();
    let matched: RouteMatch<i64, Unkeyed> = RouteMatch {
        context: tower_rpc::request::ConnectionContext::new(0),
        route: String::from("/users/978"),
        key: (),
        value: 5,
        router: trie,
    };
    let params = matched.params().unwrap();
    assert_eq!(params, vec![(String::from("id"), String::from("978"))]);
}

#[test]
fn catchall_routes_match_nested_paths() {
    let router: RouteService<i64, i64> = RouteService::new();
    let mut router = router.try_with_route_unkeyed("/static/*path", 4).unwrap();
    let idx = router.select_route(&(), "/static/css/site.css").unwrap();
    assert_eq!(router.services[idx], 4);
}

#[test]
fn readiness_queue_is_head_of_line() {
    let router: RouteService<i64, i64> = RouteService::new();
    let router = router.try_with_route_unkeyed("/a", 1).unwrap();
    let mut router = router.try_with_route_unkeyed("/b", 2).unwrap();

    // Both fresh services must be driven ready, oldest first.
    assert!(!router.all_ready());
    assert_eq!(router.next_pending(), Some(0));
    router.mark_front_ready();
    assert_eq!(router.next_pending(), Some(1));
    router.mark_front_ready();
    assert!(router.all_ready());
    assert_eq!(router.next_pending(), None);

    // A dispatch sends the chosen service to the back of the queue.
    let idx = router.select_route(&(), "/b").unwrap();
    assert_eq!(idx, 1);
    assert!(!router.all_ready());
    assert_eq!(router.next_pending(), Some(1));
    router.mark_front_ready();
    assert!(router.all_ready());
}

#[test]
fn malformed_patterns_are_rejected() {
    let router: RouteService<i64, i64> = RouteService::new();
    let outcome = router.try_with_route_unkeyed("/x/:a:b", 1);
    assert!(matches!(outcome, Err(RouteInsertError::TooManyParams)));

    let router: RouteService<i64, i64> = RouteService::new();
    let outcome = router.try_with_route_unkeyed("/x/:", 1);
    assert!(matches!(outcome, Err(RouteInsertError::UnnamedParam)));

    let router: RouteService<i64, i64> = RouteService::new();
    let outcome = router.try_with_route_unkeyed("/x/*all/more", 1);
    assert!(matches!(outcome, Err(RouteInsertError::InvalidCatchAll)));
}

#[test]
fn integer_keyed_dispatch() {
    let router: RouteService<i64, i64, Keyed<u64>> = RouteService::with_keys();
    let router = router.try_with_route(1u64, "/v", 100).unwrap();
    let mut router = router.try_with_route(2u64, "/v", 200).unwrap();
    let idx = router.select_route(&2u64, "/v").unwrap();
    assert_eq!(router.services[idx], 200);
    let idx = router.select_route(&1u64, "/v").unwrap();
    assert_eq!(router.services[idx], 100);
}

#[test]
fn param_limit_is_enforced_before_the_matcher() {
    // 26 named parameters exceed the matcher's naming range.
    let mut over = String::new();
    for i in 0..26 {
        over.push_str(&format!("/:p{i}"));
    }
    let router: RouteService<i64, i64> = RouteService::new();
    let outcome = router.try_with_route_unkeyed(&over, 1);
    assert!(matches!(outcome, Err(RouteInsertError::ParamLimitExceeded)));

    // 25 named parameters are still accepted.
    let mut under = String::new();
    for i in 0..25 {
        under.push_str(&format!("/:q{i}"));
    }
    let router: RouteService<i64, i64> = RouteService::new();
    let mut router = router.try_with_route_unkeyed(&under, 9).unwrap();
    let path: String =
        (0..25).map(|i| format!("/v{i}")).collect::<Vec<String>>().concat();
    let idx = router.select_route(&(), &path).unwrap();
    assert_eq!(router.services[idx], 9);
}
