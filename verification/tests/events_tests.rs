use surrealx::error::Error;
use surrealx::events::{Dispatch, Event, EventRegistry, EventType};

fn orders_event(record_id: Option<&str>) -> Event {
    let e = Event::new(
        EventType::Create,
        "orders".to_string(),
        serde_json::Value::Null,
    );
    match record_id {
        Some(id) => e.with_record_id(id.to_string()),
        None => e,
    }
}

#[test]
fn pattern_with_record_id_is_exact() {
    let e = orders_event(Some("123"));
    assert_eq!(e.pattern(), "orders:123");
}

#[test]
fn pattern_without_record_id_is_table_wildcard() {
    let e = orders_event(None);
    assert_eq!(e.pattern(), "orders:*");
}

#[test]
fn each_matching_listener_invoked_exactly_once() {
    let mut reg = EventRegistry::new();
    reg.register("orders:123".to_string(), 1);
    reg.register("orders:*".to_string(), 2);
    reg.register("*".to_string(), 3);
    reg.register("users:*".to_string(), 4);
    let plan = reg.emit_plan(&orders_event(Some("123")));
    assert_eq!(plan, vec![1, 2, 3]);
}

#[test]
fn wildcard_listener_not_delivered_twice_without_record_id() {
    let mut reg = EventRegistry::new();
    reg.register("orders:*".to_string(), 7);
    let plan = reg.emit_plan(&orders_event(None));
    assert_eq!(plan, vec![7]);
}

#[test]
fn same_listener_under_two_patterns_delivered_once() {
    let mut reg = EventRegistry::new();
    reg.register("orders:123".to_string(), 5);
    reg.register("*".to_string(), 5);
    let plan = reg.emit_plan(&orders_event(Some("123")));
    assert_eq!(plan, vec![5]);
}

#[test]
fn gathering_order_is_exact_then_wildcard_then_global() {
    let mut reg = EventRegistry::new();
    reg.register("*".to_string(), 30);
    reg.register("orders:*".to_string(), 20);
    reg.register("orders:9".to_string(), 10);
    reg.register("orders:*".to_string(), 21);
    let plan = reg.emit_plan(&orders_event(Some("9")));
    assert_eq!(plan, vec![10, 20, 21, 30]);
}

#[test]
fn no_matching_listener_means_empty_plan() {
    let mut reg = EventRegistry::new();
    reg.register("users:*".to_string(), 4);
    let plan = reg.emit_plan(&orders_event(Some("123")));
    assert!(plan.is_empty());
}

#[test]
fn patterns_lists_each_registered_pattern_once() {
    let mut reg = EventRegistry::new();
    reg.register("orders:*".to_string(), 1);
    reg.register("*".to_string(), 2);
    reg.register("orders:*".to_string(), 3);
    let ps = reg.patterns();
    assert_eq!(ps.len(), 2);
    assert!(ps.iter().any(|p| p == "orders:*"));
    assert!(ps.iter().any(|p| p == "*"));
}

#[test]
fn failing_listener_aborts_dispatch_and_returns_failure() {
    let mut d = Dispatch::new(vec![1, 2, 3]);
    assert_eq!(d.next(), Some(1));
    d.report_failure(Error::Event("listener one failed".to_string()));
    assert_eq!(d.next(), None);
    assert_eq!(d.next(), None);
    match d.outcome() {
        Err(Error::Event(msg)) => assert_eq!(msg, "listener one failed"),
        _ => panic!("expected the reported failure back"),
    }
}

#[test]
fn dispatch_without_failure_completes_in_order() {
    let mut d = Dispatch::new(vec![4, 5]);
    assert_eq!(d.next(), Some(4));
    assert_eq!(d.next(), Some(5));
    assert_eq!(d.next(), None);
    assert!(d.outcome().is_ok());
}

#[test]
fn custom_event_type_round_trips_through_clone() {
    let e = Event::new(
        EventType::Custom("reindex".to_string()),
        "docs".to_string(),
        serde_json::Value::String("payload".to_string()),
    );
    let c = e.clone();
    assert_eq!(c.pattern(), "docs:*");
    assert_eq!(c.data, serde_json::Value::String("payload".to_string()));
    match c.event_type {
        EventType::Custom(name) => assert_eq!(name, "reindex"),
        _ => panic!("expected the custom event type to survive the clone"),
    }
    assert_eq!(c.timestamp, e.timestamp);
}
