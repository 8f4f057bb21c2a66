use indexer_read::routing_layer::{MethodRouting, RpcRouter};

fn router(disable_routing: bool) -> RpcRouter {
    RpcRouter::new(
        vec![
            (
                "get_object".to_owned(),
                MethodRouting { version: "1.5".to_owned(), route_to: "get_object_v2".to_owned() },
            ),
            (
                "get_balance".to_owned(),
                MethodRouting { version: "2.0".to_owned(), route_to: "get_balance_v2".to_owned() },
            ),
        ],
        disable_routing,
    )
}

#[test]
fn direct_calls_to_replacement_routes_are_rejected() {
    let r = router(false);
    assert_eq!(r.route("get_object_v2", Some("1.5")), "INVALID_ROUTING");
    assert_eq!(r.route("get_balance_v2", None), "INVALID_ROUTING");
}

#[test]
fn transaction_execution_is_rerouted_unconditionally() {
    let r = router(false);
    assert_eq!(
        r.route("execute_transaction_block", None),
        "monitored_execute_transaction_block"
    );
    let disabled = router(true);
    assert_eq!(
        disabled.route("execute_transaction_block", Some("9.9")),
        "monitored_execute_transaction_block"
    );
}

#[test]
fn matching_version_takes_the_route() {
    let r = router(false);
    assert_eq!(r.route("get_object", Some("1.5")), "get_object_v2");
    assert_eq!(r.route("get_balance", Some("2.0")), "get_balance_v2");
}

#[test]
fn mismatches_keep_the_method() {
    let r = router(false);
    assert_eq!(r.route("get_object", Some("1.6")), "get_object");
    assert_eq!(r.route("get_object", None), "get_object");
    assert_eq!(r.route("unknown_method", Some("1.5")), "unknown_method");
}

#[test]
fn disabling_routing_keeps_every_method() {
    let r = router(true);
    assert_eq!(r.route("get_object", Some("1.5")), "get_object");
}

#[test]
fn method_routing_matches_on_exact_version() {
    let mr = MethodRouting { version: "1.5".to_owned(), route_to: "x".to_owned() };
    assert!(mr.matches("1.5"));
    assert!(!mr.matches("1.50"));
    assert!(!mr.matches(""));
}
