use surrealx::error::Error;
use surrealx::module::Module;
use surrealx::server::{ServerConfig, SurrealX};

#[test]
fn build_namespaces_module_functions() {
    let business = Module::new("business".to_string()).with_function("calc".to_string(), 1);
    let built = SurrealX::new().with_module(business).build();
    assert_eq!(built.function_registry.get("ext::calc"), Some(1));
    assert_eq!(built.function_registry.get("calc"), None);
}

#[test]
fn colliding_names_across_modules_keep_last_handler() {
    let first = Module::new("a".to_string()).with_function("tax".to_string(), 1);
    let second = Module::new("b".to_string()).with_function("tax".to_string(), 2);
    let built = SurrealX::new().with_module(first).with_module(second).build();
    assert_eq!(built.function_registry.get("ext::tax"), Some(2));
    assert_eq!(built.function_registry.list(), vec!["ext::tax".to_string()]);
}

#[test]
fn build_registers_listeners_verbatim() {
    let m = Module::new("audit".to_string())
        .with_listener("orders:*".to_string(), 9)
        .with_listener("*".to_string(), 10);
    let built = SurrealX::new().with_module(m).build();
    let ps = built.event_registry.patterns();
    assert_eq!(ps.len(), 2);
    assert!(ps.iter().any(|p| p == "orders:*"));
    assert!(ps.iter().any(|p| p == "*"));
}

#[test]
fn build_concatenates_routes_in_module_order() {
    let a = Module::new("a".to_string()).with_route("/a".to_string(), 1);
    let b = Module::new("b".to_string())
        .with_route("/b".to_string(), 2)
        .with_route("/c".to_string(), 3);
    let built = SurrealX::new().with_module(a).with_module(b).build();
    let paths: Vec<&str> = built.routes.iter().map(|(p, _)| p.as_str()).collect();
    assert_eq!(paths, vec!["/a", "/b", "/c"]);
    let ids: Vec<u64> = built.routes.iter().map(|(_, r)| *r).collect();
    assert_eq!(ids, vec![1, 2, 3]);
}

#[test]
fn module_getters_reflect_staging() {
    let m = Module::new("shop".to_string())
        .with_function("f".to_string(), 4)
        .with_listener("l:*".to_string(), 5);
    assert_eq!(m.name(), "shop");
    assert_eq!(m.functions().len(), 1);
    assert_eq!(m.functions()[0].0, "f");
    assert_eq!(m.listeners().len(), 1);
    assert_eq!(m.listeners()[0].1, 5);
    assert!(m.routes().is_empty());
}

#[test]
fn default_server_config_binds_loopback() {
    let c = ServerConfig::default();
    assert_eq!(c.bind_addr, "127.0.0.1:8000");
    assert!(c.data_path.is_none());
}

#[test]
fn built_snapshot_keeps_cache_usable() {
    let mut built = SurrealX::new().build();
    built.cache_provider.set_at(
        "k".to_string(),
        serde_json::Value::Bool(true),
        None,
        0,
    );
    assert_eq!(
        built.cache_provider.get_at("k", 100),
        Some(serde_json::Value::Bool(true))
    );
}

#[test]
fn error_kinds_carry_their_message() {
    let cases = vec![
        Error::Function("f".to_string()),
        Error::Event("e".to_string()),
        Error::Cache("c".to_string()),
        Error::Server("s".to_string()),
        Error::Config("cfg".to_string()),
        Error::NotFound("nf".to_string()),
        Error::Serialization("ser".to_string()),
        Error::Io("io".to_string()),
        Error::Other("o".to_string()),
    ];
    let expected = vec!["f", "e", "c", "s", "cfg", "nf", "ser", "io", "o"];
    for (err, want) in cases.iter().zip(expected.iter()) {
        assert_eq!(err.message(), *want);
        assert_eq!(err.clone().message(), *want);
    }
}

#[test]
fn registries_start_empty_and_compose() {
    let built = SurrealX::new().build();
    assert!(built.function_registry.list().is_empty());
    assert!(built.event_registry.patterns().is_empty());
    assert!(built.routes.is_empty());
}
