use surrealx::functions::FunctionRegistry;

#[test]
fn register_then_get_returns_registered_handler() {
    let mut reg = FunctionRegistry::new();
    reg.register("calculate_tax".to_string(), 11);
    reg.register("send_mail".to_string(), 22);
    assert_eq!(reg.get("calculate_tax"), Some(11));
    assert_eq!(reg.get("send_mail"), Some(22));
    assert_eq!(reg.get("absent"), None);
    assert!(reg.contains("calculate_tax"));
    assert!(!reg.contains("absent"));
}

#[test]
fn list_contains_exactly_registered_names() {
    let mut reg = FunctionRegistry::new();
    reg.register("a".to_string(), 1);
    reg.register("b".to_string(), 2);
    reg.register("a".to_string(), 3);
    let names = reg.list();
    assert_eq!(names.len(), 2);
    assert!(names.iter().any(|n| n == "a"));
    assert!(names.iter().any(|n| n == "b"));
}

#[test]
fn later_registration_replaces_earlier_one() {
    let mut reg = FunctionRegistry::new();
    reg.register("tax".to_string(), 1);
    reg.register("tax".to_string(), 2);
    assert_eq!(reg.get("tax"), Some(2));
    assert_eq!(reg.list().len(), 1);
}

#[test]
fn empty_registry_has_nothing() {
    let reg = FunctionRegistry::new();
    assert_eq!(reg.get("anything"), None);
    assert!(!reg.contains("anything"));
    assert_eq!(reg.list().len(), 0);
}
