use rushwind::registry::endpoint::{endpoint_url, host_port, split_endpoint};
use rushwind::registry::snapshots::{NextStep, SnapshotWatcher, Snapshots};
use rushwind::registry::{
    assemble_instance, read_values, registry_json, registry_key, registry_parse, service_prefix,
    settle, Instance, Registration, RegistrationHandle, RegistryError, Reply, DEFAULT_NAMESPACE,
};
use rushwind::string_map::StringMap;

fn sample_instance() -> Instance {
    Instance {
        id: "order-01".to_string(),
        name: "order-service".to_string(),
        version: "v1.0.0".to_string(),
        endpoints: vec!["grpc://127.0.0.1:9000".to_string()],
    }
}

fn metadata(pairs: &[(&str, &str)]) -> StringMap<String> {
    let mut map = StringMap::new();
    for (key, value) in pairs {
        map.insert(key.to_string(), value.to_string());
    }
    map
}

#[test]
fn json_matches_go_marshal_with_nil_metadata() {
    let registration = Registration::new(sample_instance());
    assert_eq!(
        registry_json(&registration),
        r#"{"id":"order-01","name":"order-service","version":"v1.0.0","endpoints":["grpc://127.0.0.1:9000"],"metadata":null}"#
    );
}

#[test]
fn json_matches_go_marshal_with_metadata() {
    let registration =
        Registration::new(sample_instance()).with_metadata(metadata(&[("tier", "gold")]));
    assert_eq!(
        registry_json(&registration),
        r#"{"id":"order-01","name":"order-service","version":"v1.0.0","endpoints":["grpc://127.0.0.1:9000"],"metadata":{"tier":"gold"}}"#
    );
}

#[test]
fn metadata_is_written_in_the_order_of_its_keys() {
    let registration = Registration::new(sample_instance())
        .with_metadata(metadata(&[("zone", "b"), ("tier", "gold")]));
    let text = registry_json(&registration);
    assert!(text.ends_with(r#""metadata":{"tier":"gold","zone":"b"}}"#));
}

#[test]
fn key_layout_matches_go_registrar() {
    let key = registry_key(DEFAULT_NAMESPACE, &sample_instance());
    assert_eq!(key, "/microservices/order-service/order-01");
}

#[test]
fn parse_roundtrips_go_marshal_with_nil_metadata() {
    let instance = registry_parse(
        r#"{"id":"order-01","name":"order-service","version":"v1.0.0","endpoints":["grpc://127.0.0.1:9000"],"metadata":null}"#,
    )
    .expect("golden vector must parse");
    assert_eq!(instance, sample_instance());
}

#[test]
fn parse_roundtrips_go_marshal_with_metadata() {
    let instance = registry_parse(
        r#"{"id":"order-01","name":"order-service","version":"v1.0.0","endpoints":["grpc://127.0.0.1:9000"],"metadata":{"tier":"gold"}}"#,
    )
    .expect("golden vector must parse");
    assert_eq!(instance, sample_instance());
}

#[test]
fn parse_tolerates_missing_fields_like_go_zero_values() {
    let instance = registry_parse(r#"{"id":"order-01"}"#).expect("partial input must parse");
    assert_eq!(
        instance,
        Instance {
            id: "order-01".to_string(),
            ..Instance::default()
        }
    );
}

#[test]
fn parse_rejects_malformed_input() {
    assert!(registry_parse("not json").is_err());
}

#[test]
fn service_prefix_layout_matches_go_discovery() {
    assert_eq!(
        service_prefix(DEFAULT_NAMESPACE, "order-service"),
        "/microservices/order-service"
    );
}

#[test]
fn what_is_written_is_read_back() {
    let mut instance = sample_instance();
    instance.id = "a \"quoted\"\nid".to_string();
    instance.endpoints.push("http://[::1]:80".to_string());
    let text = registry_json(&Registration::new(instance.clone()));
    assert_eq!(registry_parse(&text).expect("reads back"), instance);
}

#[test]
fn strings_are_escaped() {
    let mut instance = sample_instance();
    instance.id = "\"\\/\u{8}\t\n\u{c}\r\u{1}\u{1f}\u{7f}\u{e9}".to_string();
    let text = registry_json(&Registration::new(instance.clone()));
    assert!(text.starts_with(
        "{\"id\":\"\\\"\\\\/\\b\\t\\n\\f\\r\\u0001\\u001f\u{7f}\u{e9}\",\"name\""
    ));
    assert_eq!(registry_parse(&text).expect("reads back"), instance);
}

#[test]
fn registrations_are_copied_and_made_empty() {
    let registration =
        Registration::new(sample_instance()).with_metadata(metadata(&[("tier", "gold")]));
    let copy = registration.clone();
    assert_eq!(registry_json(&copy), registry_json(&registration));
    assert_eq!(
        registry_json(&Registration::default()),
        r#"{"id":"","name":"","version":"","endpoints":[],"metadata":null}"#
    );
}

#[test]
fn keys_lie_under_their_prefix() {
    let key = registry_key("/ns", &sample_instance());
    let prefix = service_prefix("/ns", "order-service");
    assert!(key.starts_with(&prefix));
    assert_eq!(key, format!("{prefix}/order-01"));
}

#[test]
fn a_field_of_the_wrong_kind_is_rejected() {
    assert!(registry_parse(r#"{"id":7}"#).is_err());
    assert!(registry_parse(r#"{"endpoints":"x"}"#).is_err());
}

#[test]
fn the_first_bad_field_decides() {
    let bad = assemble_instance(
        Ok(Some("i".to_string())),
        Err("bad name".to_string()),
        Ok(None),
        Ok(None),
    );
    let RegistryError::Failed(text) = bad.expect_err("a bad field fails") else {
        panic!("another kind of failure");
    };
    assert!(text.contains("bad name"));
    let endpoints = vec![Some("e".to_string()), None];
    let good = assemble_instance(
        Ok(Some("i".to_string())),
        Ok(None),
        Ok(None),
        Ok(Some(endpoints)),
    )
    .expect("good");
    assert_eq!(good.id, "i");
    assert_eq!(good.name, "");
    assert_eq!(good.endpoints, vec!["e".to_string(), String::new()]);
}

#[test]
fn null_fields_are_empty() {
    let text = r#"{"id":"a","name":"s","version":"1","endpoints":null,"metadata":null}"#;
    assert_eq!(
        registry_parse(text).expect("null endpoints are none"),
        Instance {
            id: "a".to_string(),
            name: "s".to_string(),
            version: "1".to_string(),
            endpoints: vec![],
        }
    );
    let text = r#"{"id":null,"name":"s","endpoints":["x",null]}"#;
    assert_eq!(
        registry_parse(text).expect("null texts are empty"),
        Instance {
            id: String::new(),
            name: "s".to_string(),
            version: String::new(),
            endpoints: vec!["x".to_string(), String::new()],
        }
    );
    let nothing = registry_parse(" null ").expect("null announces nothing");
    assert_eq!(nothing, Instance::default());
}

#[test]
fn further_fields_are_passed_over() {
    let text = r#"{"id":"a","load":1e999,"note":"\ud800","metadata":[[[]]]}"#;
    assert_eq!(registry_parse(text).expect("passed over").id, "a");
}

#[test]
fn characters_that_mean_something_to_a_page_are_escaped() {
    let mut map = StringMap::new();
    map.insert("<k>".to_string(), "a&b".to_string());
    let instance = Instance {
        id: "a".to_string(),
        name: "s".to_string(),
        version: "1".to_string(),
        endpoints: vec!["http://h:1/?x=1&y=2".to_string()],
    };
    let text = registry_json(&Registration::new(instance.clone()));
    assert_eq!(
        text,
        r#"{"id":"a","name":"s","version":"1","endpoints":["http://h:1/?x=1\u0026y=2"],"metadata":null}"#
    );
    assert_eq!(registry_parse(&text).expect("reads back"), instance);
    let mut odd = instance;
    odd.id = "<\u{2028}\u{2029}>".to_string();
    let text = registry_json(&Registration::new(odd.clone()).with_metadata(map));
    assert!(text.starts_with(r#"{"id":"\u003c\u2028\u2029\u003e","#));
    assert!(text.ends_with(r#""metadata":{"\u003ck\u003e":"a\u0026b"}}"#));
    assert_eq!(registry_parse(&text).expect("reads back"), odd);
}

#[test]
fn values_are_kept_by_name() {
    let mut other = sample_instance();
    other.name = "billing".to_string();
    let values = vec![
        Ok(registry_json(&Registration::new(sample_instance()))),
        Ok(registry_json(&Registration::new(other.clone()))),
    ];
    let kept = read_values(&values, Some("billing")).expect("read");
    assert_eq!(kept, vec![other]);
    let all = read_values(&values, None).expect("read");
    assert_eq!(all.len(), 2);
    let broken = vec![Err("not text".to_string())];
    assert!(read_values(&broken, None).is_err());
}

#[test]
fn error_messages_carry_the_reason() {
    assert_eq!(
        RegistryError::Failed("gone".to_string()).message(),
        "registry operation failed: gone"
    );
}

#[test]
fn replies_settle_operations() {
    assert!(settle("register", Reply::Done).is_ok());
}

#[test]
fn endpoints_split_and_join() {
    let parts = split_endpoint("grpc://127.0.0.1:9000").expect("an endpoint");
    assert_eq!(parts.scheme, "grpc");
    assert_eq!(parts.host, "127.0.0.1");
    assert_eq!(parts.port, 9000);
    assert_eq!(
        endpoint_url(&parts.scheme, &parts.host, parts.port),
        "grpc://127.0.0.1:9000"
    );
    assert_eq!(host_port("h", 1), "h:1");
    assert!(split_endpoint("127.0.0.1").is_none());
}

#[test]
fn snapshots_publish_changes_only() {
    let mut snapshots = Snapshots::new();
    assert!(snapshots.begin_watch("s"));
    assert!(!snapshots.begin_watch("s"));
    assert!(snapshots.begin_watch("r"));
    assert_eq!(snapshots.name_at(0), "s");
    assert_eq!(snapshots.name_at(1), "r");
    assert!(snapshots.publish_change("s", vec![sample_instance()]));
    assert!(!snapshots.publish_change("s", vec![sample_instance()]));
    assert!(snapshots.publish_change("s", vec![]));
    assert_eq!(snapshots.get("s").expect("watched").len(), 0);
    assert!(snapshots.get("t").is_none());
}

#[test]
fn watchers_wait_after_their_first_answer() {
    let mut watcher = SnapshotWatcher::eager();
    assert!(matches!(
        watcher.begin_next(vec![sample_instance()]),
        NextStep::Deliver(_)
    ));
    assert!(matches!(
        watcher.begin_next(vec![sample_instance()]),
        NextStep::Wait
    ));
    watcher.stop();
    assert!(watcher.finish_next(None).is_err());
}

#[test]
fn registrations_cancel_once() {
    let count = std::cell::Cell::new(0);
    let mut handle = RegistrationHandle::from_cancel(|| count.set(count.get() + 1));
    assert_eq!(count.get(), 0);
    handle.cancel();
    handle.cancel();
    assert_eq!(count.get(), 1);
    handle.release();
    assert_eq!(count.get(), 1);
    let handle = RegistrationHandle::from_cancel(|| count.set(count.get() + 1));
    handle.release();
    assert_eq!(count.get(), 2);
}
