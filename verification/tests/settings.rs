use tributary_rs::config::{metadata_client_config, produce_client_config, scan_client_config};
use tributary_rs::text_map::{join, same_text, starts_with, StringMap};

fn map(entries: &[(&str, &str)]) -> StringMap {
    StringMap::from_entries(
        entries
            .iter()
            .map(|(k, v)| (k.to_string(), v.to_string()))
            .collect(),
    )
}

#[test]
fn scan_settings_override_the_call() {
    let client = scan_client_config(&map(&[
        ("bootstrap.servers", "localhost:9092"),
        ("enable.auto.commit", "true"),
        ("enable.partition.eof", "false"),
        ("auto.offset.reset", "latest"),
        ("sasl.username", "user"),
    ]));
    assert_eq!(client.get("bootstrap.servers"), Some("localhost:9092"));
    assert_eq!(client.get("sasl.username"), Some("user"));
    assert_eq!(client.get("enable.auto.commit"), Some("false"));
    assert_eq!(client.get("enable.partition.eof"), Some("true"));
    assert_eq!(client.get("auto.offset.reset"), Some("earliest"));
}

#[test]
fn scan_has_a_group_only_where_the_call_names_one() {
    assert_eq!(scan_client_config(&map(&[])).get("group.id"), None);
    let client = scan_client_config(&map(&[("group.id", "g")]));
    assert_eq!(client.get("group.id"), Some("g"));
}

#[test]
fn metadata_has_a_group() {
    assert_eq!(
        metadata_client_config(&map(&[])).get("group.id"),
        Some("tributary-rs-metadata")
    );
    let client = metadata_client_config(&map(&[("group.id", "g"), ("client.id", "c")]));
    assert_eq!(client.get("group.id"), Some("g"));
    assert_eq!(client.get("client.id"), Some("c"));
    assert_eq!(client.get("enable.auto.commit"), None);
}

#[test]
fn schema_registry_settings_do_not_reach_the_client() {
    let config = map(&[
        ("schema.registry.url", "http://localhost"),
        ("schema.registry.basic.auth.user.info", "user:password"),
        ("bootstrap.servers", "localhost:9092"),
    ]);
    for client in [
        scan_client_config(&config),
        metadata_client_config(&config),
        produce_client_config(&config),
    ] {
        assert_eq!(client.get("schema.registry.url"), None);
        assert_eq!(client.get("schema.registry.basic.auth.user.info"), None);
        assert_eq!(client.get("bootstrap.servers"), Some("localhost:9092"));
    }
}

#[test]
fn produce_settings_are_those_of_the_call() {
    let client = produce_client_config(&map(&[("transactional.id", "t")]));
    assert_eq!(client.get("transactional.id"), Some("t"));
    assert_eq!(client.get("group.id"), None);
    assert_eq!(client.get("enable.auto.commit"), None);
}

#[test]
fn map_keeps_the_last_value_of_a_key() {
    let m = map(&[("a", "1"), ("b", "2"), ("a", "3")]);
    assert_eq!(m.len(), 2);
    assert_eq!(m.get("a"), Some(&"3".to_string()));
    assert_eq!(m.get("c"), None);
    assert!(m.contains_key("b"));
    let keys: Vec<&str> = m.entries().iter().map(|(k, _)| k.as_str()).collect();
    assert_eq!(keys, ["a", "b"]);
}

#[test]
fn texts() {
    assert!(starts_with("schema.registry.url", "schema.registry."));
    assert!(starts_with("schema.registry.", "schema.registry."));
    assert!(!starts_with("schema.registry", "schema.registry."));
    assert!(!starts_with("schema_registry.url", "schema.registry."));
    assert!(starts_with("\u{b5}m", "\u{b5}"));
    assert!(same_text("a", "a"));
    assert!(!same_text("a", "b"));
    assert_eq!(join("a\u{b5}", "b"), "a\u{b5}b");
}
