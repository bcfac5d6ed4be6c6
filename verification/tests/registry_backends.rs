use rushwind::registry::consul::{
    build_registration, found, health_url, heartbeat_start, heartbeat_step, registration_body,
    resolve_entries, response_index, settle_health, ConsulOptions, ConsulRegistry, HealthReply, HeartbeatAction,
    HeartbeatPhase, WireService, WireServiceAddress,
};
use rushwind::registry::etcd::{
    refresh_interval, settle_grant, settle_key, EtcdRegistry, EtcdSettings, EtcdWatcher,
    Keepalive, KeepaliveAction, WatchMessage,
};
use rushwind::registry::eureka::{
    build_wire_endpoint, group_applications, server_replied, shuffle, EurekaRegistry, Heartbeat,
    RequestStep, ServerReply, WireApplication, WireInstanceOut,
};
use rushwind::registry::kubernetes::{
    build_protocol_map, deregistration_patch, parse_object_string, rebuild_instance,
    rebuild_instances, registration_patch, selector, ContainerPort, Pod,
};
use rushwind::registry::nacos::{plan_endpoint, rebuild, settle_endpoint, ServiceInstance};
use rushwind::registry::polaris::{accept_reply, discover, PolarisRegistry};
use rushwind::registry::servicecomb::{
    changed_instance, find_instances, settle_answer, urlencode, Answer, Backoff, CreateStep,
    ServicecombOptions, ServicecombRegistry, ServicecombWatcher, WireChangedEvent, WireInstance,
};
use rushwind::registry::zookeeper::{
    children_armed, exists_armed, read_instances, rearms, AnnounceAction, Announcement, ArmEvent,
    ChildNode, Keeper, KeeperState, NodeEvent, WatchAction, WatchSignal,
    ZookeeperRegistry, ZookeeperSettings, ZookeeperWatcher,
};
use rushwind::registry::{registry_json, Instance, Registration, RegistryError};
use rushwind::string_map::StringMap;

fn texts(list: &[&str]) -> Vec<String> {
    list.iter().map(|s| s.to_string()).collect()
}

fn map(pairs: &[(&str, &str)]) -> StringMap<String> {
    let mut m = StringMap::new();
    for (k, v) in pairs {
        m.insert(k.to_string(), v.to_string());
    }
    m
}

fn instance(id: &str, name: &str, version: &str, endpoints: &[&str]) -> Instance {
    Instance {
        id: id.to_string(),
        name: name.to_string(),
        version: version.to_string(),
        endpoints: texts(endpoints),
    }
}

fn sample() -> Registration {
    Registration::new(instance(
        "inst-1",
        "user-service",
        "v1.0.0",
        &["grpc://10.0.0.1:9000", "http://10.0.0.1:8000"],
    ))
}

fn reason(error: RegistryError) -> String {
    let RegistryError::Failed(reason) = error else {
        panic!("another kind of failure");
    };
    reason
}

fn same(a: &Instance, b: &Instance) -> bool {
    a.id == b.id && a.name == b.name && a.version == b.version && a.endpoints == b.endpoints
}

// Consul.

#[test]
fn consul_registration_has_checks_per_endpoint_and_a_ttl() {
    let wire = build_registration(&ConsulOptions::default(), &sample()).unwrap();
    assert_eq!(wire.id, "inst-1");
    assert_eq!(wire.name, "user-service");
    assert_eq!(wire.tags, texts(&["version=v1.0.0"]));
    assert_eq!(wire.address.as_deref(), Some("10.0.0.1"));
    assert_eq!(wire.port, Some(9000));
    let tagged = wire.tagged_addresses.unwrap();
    assert_eq!(tagged.len(), 2);
    assert_eq!(tagged.get("http").unwrap().address, "http://10.0.0.1:8000");
    assert_eq!(tagged.get("http").unwrap().port, 8000);
    assert!(wire.meta.is_none());
    let checks = wire.checks.unwrap();
    assert_eq!(checks.len(), 3);
    assert_eq!(checks[0].tcp.as_deref(), Some("10.0.0.1:9000"));
    assert_eq!(checks[1].tcp.as_deref(), Some("10.0.0.1:8000"));
    assert_eq!(checks[1].interval.as_deref(), Some("10s"));
    assert_eq!(checks[1].timeout.as_deref(), Some("5s"));
    assert_eq!(
        checks[1].deregister_critical_service_after.as_deref(),
        Some("600s")
    );
    assert_eq!(checks[2].check_id.as_deref(), Some("service:inst-1"));
    assert_eq!(checks[2].ttl.as_deref(), Some("20s"));
    assert!(checks[2].tcp.is_none());
}

#[test]
fn consul_registrations_are_written_without_what_is_absent() {
    let registration = sample().with_metadata(map(&[("zone", "z"), ("tier", "\"gold\"")]));
    let wire = build_registration(&ConsulOptions::default(), &registration).unwrap();
    assert_eq!(
        registration_body(&wire),
        concat(&[
            r#"{"ID":"inst-1","Name":"user-service","Tags":["version=v1.0.0"],"#,
            r#""Address":"10.0.0.1","Port":9000,"TaggedAddresses":{"#,
            r#""grpc":{"Address":"grpc://10.0.0.1:9000","Port":9000},"#,
            r#""http":{"Address":"http://10.0.0.1:8000","Port":8000}},"#,
            r#""Meta":{"tier":"\"gold\"","zone":"z"},"Checks":["#,
            r#"{"TCP":"10.0.0.1:9000","Interval":"10s","Timeout":"5s","#,
            r#""DeregisterCriticalServiceAfter":"600s"},"#,
            r#"{"TCP":"10.0.0.1:8000","Interval":"10s","Timeout":"5s","#,
            r#""DeregisterCriticalServiceAfter":"600s"},"#,
            r#"{"DeregisterCriticalServiceAfter":"600s","CheckID":"service:inst-1","#,
            r#""TTL":"20s"}]}"#,
        ])
    );
    let options = ConsulOptions {
        enable_health_check: false,
        heartbeat: false,
        timeout: 1,
        ..ConsulOptions::default()
    };
    assert_eq!(options.clone().timeout, 1);
    let bare = Registration::new(instance("i", "n", "v", &[]));
    let wire = build_registration(&options, &bare).unwrap();
    assert_eq!(
        registration_body(&wire),
        r#"{"ID":"i","Name":"n","Tags":["version=v"]}"#
    );
}

#[test]
fn consul_addresses_are_written_in_the_order_of_their_schemes() {
    let endpoints = ["ws://h:3", "http://h:1", "grpc://h:2", "h2://h:4", "h://h:5"];
    let registration = Registration::new(instance("i", "n", "v", &endpoints));
    let wire = build_registration(&ConsulOptions::default(), &registration).unwrap();
    let body = registration_body(&wire);
    let at: Vec<usize> = ["\"grpc\":", "\"h\":", "\"h2\":", "\"http\":", "\"ws\":"]
        .iter()
        .map(|scheme| body.find(scheme).unwrap())
        .collect();
    assert!(at.windows(2).all(|pair| pair[0] < pair[1]));
}

#[test]
fn consul_registration_without_endpoints_or_checks_is_bare() {
    let options = ConsulOptions {
        enable_health_check: false,
        heartbeat: false,
        ..ConsulOptions::default()
    };
    let registration = Registration::new(instance("i", "n", "v", &[]));
    let wire = build_registration(&options, &registration).unwrap();
    assert!(wire.address.is_none());
    assert!(wire.port.is_none());
    assert!(wire.tagged_addresses.is_none());
    assert!(wire.checks.is_none());
}

#[test]
fn consul_registration_rejects_an_endpoint_without_a_scheme() {
    let registration = Registration::new(instance("i", "n", "v", &["10.0.0.1:80"]));
    let refused = build_registration(&ConsulOptions::default(), &registration).err().unwrap();
    assert_eq!(reason(refused), "endpoint parse: 10.0.0.1:80");
}

fn consul_service(tags: Option<Vec<String>>) -> WireService {
    WireService {
        id: "i".to_string(),
        service: "n".to_string(),
        tags,
        address: Some("10.0.0.7".to_string()),
        port: Some(81),
        tagged_addresses: None,
    }
}

#[test]
fn consul_entries_resolve_their_version_and_endpoints() {
    let plain = consul_service(Some(texts(&["a=b", "version=v2", "version=v3"])));
    let mut tagged = consul_service(None);
    let mut addresses = StringMap::new();
    for (scheme, address) in [("lan_ipv4", "10.0.0.7"), ("grpc", "grpc://10.0.0.7:82")] {
        let address = WireServiceAddress {
            address: address.to_string(),
            port: 82,
        };
        addresses.insert(scheme.to_string(), address);
    }
    tagged.tagged_addresses = Some(addresses);
    let mut bare = consul_service(None);
    bare.port = None;
    let resolved = resolve_entries(&vec![plain, tagged, bare]);
    assert!(same(
        &resolved[0],
        &instance("i", "n", "v2", &["http://10.0.0.7:81"])
    ));
    assert!(same(
        &resolved[1],
        &instance("i", "n", "", &["grpc://10.0.0.7:82"])
    ));
    assert!(same(&resolved[2], &instance("i", "n", "", &[])));
}

#[test]
fn consul_queries_block_on_an_index() {
    assert_eq!(
        health_url("http://a", "svc", None),
        "http://a/v1/health/service/svc?passing=1&wait=55000ms"
    );
    assert_eq!(
        health_url("http://a", "svc", Some(7)),
        "http://a/v1/health/service/svc?index=7&passing=1&wait=55000ms"
    );
    assert_eq!(response_index(&Some("42".to_string())), 42);
    assert_eq!(response_index(&Some("x".to_string())), 0);
    assert_eq!(response_index(&None), 0);
}

#[test]
fn consul_health_replies_settle() {
    let lost = settle_health("s", HealthReply::Lost("gone".to_string()));
    assert_eq!(reason(lost.err().unwrap()), "consul health s: gone");
    let refused = settle_health("s", HealthReply::Refused("500 Internal".to_string()));
    assert_eq!(
        reason(refused.err().unwrap()),
        "consul health s: HTTP 500 Internal"
    );
    let garbled = settle_health("s", HealthReply::Garbled("eof".to_string()));
    assert_eq!(reason(garbled.err().unwrap()), "consul health s: parse: eof");
    let entries = vec![consul_service(None)];
    let (instances, index) =
        settle_health("s", HealthReply::View(entries, Some("9".to_string()))).unwrap();
    assert_eq!(instances.len(), 1);
    assert_eq!(index, 9);
    assert!(found("s", instances).is_ok());
    assert!(found("s", Vec::new()).is_err());
}

#[test]
fn consul_polls_publish_only_what_moved() {
    let mut registry: ConsulRegistry<u8> = ConsulRegistry::connect("http://a/").unwrap();
    assert_eq!(registry.base, "http://a");
    let one = || vec![instance("i", "n", "v", &[])];
    registry.publish("n", one());
    assert_eq!(registry.poll("n", 3, Ok((Vec::new(), 4))), (4, 1, false));
    assert_eq!(registry.cached("n").unwrap().len(), 1);
    let two = vec![instance("i", "n", "v", &[]), instance("j", "n", "v", &[])];
    assert_eq!(registry.poll("n", 4, Ok((two, 5))), (5, 1, true));
    assert_eq!(registry.cached("n").unwrap().len(), 2);
    assert_eq!(registry.poll("n", 5, Ok((one(), 5))), (5, 1, false));
    assert_eq!(registry.cached("n").unwrap().len(), 2);
    let lost = Err(RegistryError::Failed("x".to_string()));
    assert_eq!(registry.poll("n", 5, lost), (5, 2, false));
}

#[test]
fn consul_heartbeats_register_again_after_a_failure() {
    let (phase, action) = heartbeat_start();
    assert_eq!(action, HeartbeatAction::Sleep(1));
    let (phase, action) = heartbeat_step(phase, true, 10, 0);
    assert_eq!(action, HeartbeatAction::Pass);
    let (phase, action) = heartbeat_step(phase, false, 10, 0);
    assert_eq!(action, HeartbeatAction::Sleep(10));
    let (phase, action) = heartbeat_step(phase, true, 10, 0);
    assert_eq!(action, HeartbeatAction::Pass);
    let (phase, action) = heartbeat_step(phase, false, 10, 13);
    assert_eq!(action, HeartbeatAction::Sleep(3));
    let (phase, action) = heartbeat_step(phase, true, 10, 0);
    assert_eq!(action, HeartbeatAction::Register);
    let (phase, action) = heartbeat_step(phase, false, 10, 0);
    assert_eq!(action, HeartbeatAction::Sleep(10));
    assert_eq!(phase, HeartbeatPhase::Waiting);
}

#[test]
fn consul_tasks_are_kept_by_registration() {
    let mut registry: ConsulRegistry<u8> = ConsulRegistry::connect("a").unwrap();
    let plan = registry.heartbeat_plan(&sample()).unwrap();
    assert_eq!(plan.check_id, "service:inst-1");
    assert_eq!(plan.interval_secs, 10);
    registry.keep_task(&sample(), 7);
    assert_eq!(registry.drop_task(&sample()), Some(7));
    assert_eq!(registry.drop_task(&sample()), None);
}

// Eureka.

#[test]
fn eureka_endpoints_carry_the_identity_in_their_metadata() {
    let wire = build_wire_endpoint(&sample(), "grpc://10.0.0.1:9000").unwrap();
    assert_eq!(wire.app_id, "USER-SERVICE");
    assert_eq!(wire.instance_id, "10.0.0.1.USER-SERVICE:9000");
    assert_eq!(wire.port, 9000);
    assert_eq!(wire.secure_port, 443);
    assert_eq!(wire.home_page_url, "grpc://10.0.0.1:9000/");
    assert_eq!(wire.status_page_url, "grpc://10.0.0.1:9000/info");
    assert_eq!(wire.health_check_url, "grpc://10.0.0.1:9000/health");
    assert_eq!(wire.metadata.get("ID").unwrap(), "inst-1");
    assert_eq!(wire.metadata.get("Name").unwrap(), "user-service");
    assert_eq!(wire.metadata.get("Version").unwrap(), "v1.0.0");
    assert_eq!(wire.metadata.get("Endpoints").unwrap(), "grpc://10.0.0.1:9000");
    assert_eq!(wire.metadata.get("agent").unwrap(), "go-eureka-client");
    assert_eq!(wire.task_key(), "USER-SERVICE/10.0.0.1.USER-SERVICE:9000");
    let refused = build_wire_endpoint(&sample(), "nothing").err().unwrap();
    assert_eq!(reason(refused), "endpoint parse: nothing");
}

#[test]
fn eureka_metadata_overrides_ports_and_pages() {
    let metadata = map(&[
        ("securePort", "8443"),
        ("homePageURL", "h"),
        ("statusPageURL", "s"),
        ("healthCheckURL", "c"),
        ("zone", "z1"),
    ]);
    let registration = sample().with_metadata(metadata);
    let wire = build_wire_endpoint(&registration, "http://a:1").unwrap();
    assert_eq!(wire.secure_port, 8443);
    assert_eq!(wire.home_page_url, "h");
    assert_eq!(wire.status_page_url, "s");
    assert_eq!(wire.health_check_url, "c");
    assert_eq!(wire.metadata.get("zone").unwrap(), "z1");
    let broken = sample().with_metadata(map(&[("securePort", "x")]));
    assert_eq!(
        build_wire_endpoint(&broken, "http://a:1").unwrap().secure_port,
        0
    );
}

fn eureka_app(status: &str) -> WireApplication {
    let metadata = map(&[
        ("ID", "i"),
        ("Name", "user-service"),
        ("Version", "v1"),
        ("Endpoints", "http://a:1"),
    ]);
    WireApplication {
        name: "user-service".to_string(),
        instance: Some(vec![WireInstanceOut {
            instance_id: Some("a.USER-SERVICE:1".to_string()),
            status: Some(status.to_string()),
            metadata: Some(metadata),
        }]),
    }
}

#[test]
fn eureka_lists_only_what_is_up() {
    let groups = group_applications(&vec![eureka_app("UP"), eureka_app("DOWN")]);
    assert_eq!(groups[0].app_id, "USER-SERVICE");
    assert!(same(
        &groups[0].instances[0],
        &instance("i", "user-service", "v1", &["http://a:1"])
    ));
    assert_eq!(groups[1].instances.len(), 0);
    assert_eq!(groups[0].ids, texts(&["a.USER-SERVICE:1"]));
    assert_eq!(groups[1].ids, Vec::<String>::new());
}

#[test]
fn eureka_skips_endpoints_that_are_listed_as_up() {
    let mut registry: EurekaRegistry<u8> = EurekaRegistry::connect(&texts(&["http://e"])).unwrap();
    registry.begin_watch("user-service");
    let wire = registry.plan_endpoint(&sample(), "http://a:1").unwrap();
    assert_eq!(wire.unwrap().instance_id, "a.USER-SERVICE:1");
    registry.refresh(&group_applications(&vec![eureka_app("DOWN")]));
    assert!(registry.plan_endpoint(&sample(), "http://a:1").unwrap().is_some());
    registry.refresh(&group_applications(&vec![eureka_app("UP")]));
    assert!(registry.plan_endpoint(&sample(), "http://a:1").unwrap().is_none());
    assert!(registry.plan_endpoint(&sample(), "http://a:2").unwrap().is_some());
    registry.refresh(&Vec::new());
    assert!(registry.plan_endpoint(&sample(), "http://a:1").unwrap().is_some());
    let mut other: EurekaRegistry<u8> = EurekaRegistry::connect(&texts(&["http://e"])).unwrap();
    other.refresh(&group_applications(&vec![eureka_app("UP")]));
    assert!(other.plan_endpoint(&sample(), "http://a:1").unwrap().is_some());
}

#[test]
fn eureka_refreshes_tell_what_changed() {
    let mut registry: EurekaRegistry<u8> = EurekaRegistry::connect(&texts(&["http://e"])).unwrap();
    assert_eq!(registry.begin_watch("user-service"), "USER-SERVICE");
    let listing = group_applications(&vec![eureka_app("UP")]);
    assert_eq!(registry.refresh(&listing), texts(&["USER-SERVICE"]));
    assert_eq!(registry.refresh(&listing), Vec::<String>::new());
    assert_eq!(registry.cached("user-service").unwrap().len(), 1);
    assert_eq!(registry.refresh(&Vec::new()), texts(&["USER-SERVICE"]));
}

#[test]
fn eureka_requests_rotate_over_unreachable_servers() {
    assert!(matches!(
        server_replied(0, 2, ServerReply::Unreachable),
        RequestStep::Try(1)
    ));
    let RequestStep::Fail(error) = server_replied(1, 2, ServerReply::Unreachable) else {
        panic!("another server was tried");
    };
    assert_eq!(reason(error), "eureka: retry after all servers");
    let RequestStep::Fail(error) =
        server_replied(0, 2, ServerReply::Status(404, Ok(String::new())))
    else {
        panic!("an error was accepted");
    };
    assert_eq!(reason(error), "eureka: response Error 404");
    let RequestStep::Answer(body) =
        server_replied(0, 2, ServerReply::Status(200, Ok("body".to_string())))
    else {
        panic!("a success was refused");
    };
    assert_eq!(body, "body");
    let RequestStep::Answer(body) =
        server_replied(0, 2, ServerReply::Status(302, Ok("body".to_string())))
    else {
        panic!("a redirect was refused");
    };
    assert_eq!(body, "body");
    let RequestStep::Fail(error) =
        server_replied(0, 2, ServerReply::Status(302, Err("cut".to_string())))
    else {
        panic!("a lost body was accepted");
    };
    assert_eq!(reason(error), "eureka: read body: cut");
}

#[test]
fn eureka_shuffles_by_the_clock() {
    for (nanos, expected) in [
        (0u32, ["a", "c", "d", "b"]),
        (1, ["a", "c", "d", "b"]),
        (7, ["a", "c", "b", "d"]),
        (123_456_789, ["c", "d", "a", "b"]),
    ] {
        let mut urls = texts(&["a", "b", "c", "d"]);
        shuffle(&mut urls, nanos);
        assert_eq!(urls, texts(&expected));
    }
}

#[test]
fn eureka_registers_again_on_the_third_failure() {
    let mut heartbeat = Heartbeat::new();
    assert!(!heartbeat.sent(false));
    assert!(!heartbeat.sent(false));
    assert!(!heartbeat.sent(true));
    assert!(heartbeat.sent(false));
    assert!(!heartbeat.sent(false));
}

#[test]
fn eureka_tasks_are_dropped_by_application() {
    let mut registry: EurekaRegistry<u8> = EurekaRegistry::connect(&texts(&["http://e"])).unwrap();
    let a = build_wire_endpoint(&sample(), "http://a:1").unwrap();
    let b = build_wire_endpoint(&sample(), "http://b:1").unwrap();
    assert_eq!(registry.keep_task(&a, 0), None);
    assert_eq!(registry.keep_task(&a, 1), Some(0));
    assert_eq!(registry.keep_task(&b, 2), None);
    assert_eq!(registry.drop_tasks("USER"), Vec::<u8>::new());
    assert_eq!(registry.drop_tasks("USER-SERVICE"), vec![1, 2]);
    assert_eq!(registry.drop_task(&a.task_key()), None);
}

// Etcd.

#[test]
fn etcd_refreshes_at_a_third_of_the_lease() {
    assert_eq!(refresh_interval(15), 5);
    assert_eq!(refresh_interval(2), 1);
    assert_eq!(refresh_interval(-4), 1);
}

#[test]
fn etcd_settings_fall_back_on_the_defaults() {
    let settings = EtcdSettings {
        endpoints: texts(&["http://e"]),
        namespace: None,
        ttl: None,
    };
    let registry: EtcdRegistry<u8> = EtcdRegistry::from_settings(&settings);
    assert_eq!(registry.namespace, "/microservices");
    assert_eq!(registry.ttl, 15);
}

#[test]
fn etcd_keepalives_grant_a_lost_lease_anew() {
    let (mut keepalive, action) = Keepalive::start(7, 15);
    assert_eq!(action, KeepaliveAction::Open(7));
    assert_eq!(keepalive.step(Some(0)), KeepaliveAction::Send);
    assert_eq!(keepalive.step(Some(0)), KeepaliveAction::Receive(5));
    assert_eq!(keepalive.step(None), KeepaliveAction::Grant);
    assert_eq!(keepalive.step(Some(9)), KeepaliveAction::Put(9));
    assert_eq!(keepalive.step(Some(0)), KeepaliveAction::Open(9));
    assert_eq!(keepalive.lease_id, 9);
}

#[test]
fn etcd_operations_settle() {
    assert_eq!(settle_grant(Ok(5)).unwrap(), 5);
    let refused = settle_grant(Err("no".to_string())).err().unwrap();
    assert_eq!(reason(refused), "etcd lease grant: no");
    let refused = settle_key("put", "/k", Err("no".to_string())).err().unwrap();
    assert_eq!(reason(refused), "etcd put /k: no");
}

#[test]
fn etcd_watchers_reopen_a_broken_stream() {
    let mut watcher = EtcdWatcher::new();
    assert!(matches!(
        watcher.begin_next(),
        rushwind::registry::etcd::NextStep::Read
    ));
    assert!(matches!(
        watcher.begin_next(),
        rushwind::registry::etcd::NextStep::Wait
    ));
    let quiet = WatchMessage {
        canceled: false,
        compact_revision: 0,
    };
    assert!(matches!(
        watcher.received(Some(quiet)),
        rushwind::registry::etcd::NextStep::Read
    ));
    assert!(matches!(
        watcher.received(None),
        rushwind::registry::etcd::NextStep::Reopen(1)
    ));
}

// Kubernetes.

fn pod() -> Pod {
    Pod {
        phase: Some("Running".to_string()),
        pod_ip: Some("10.1.0.5".to_string()),
        labels: map(&[
            ("wind-service-id", "i"),
            ("wind-service-app", "user-service"),
            ("wind-service-version", "v1"),
        ]),
        annotations: map(&[("wind-service-protocols", "{\"9000\":\"grpc\"}")]),
        ports: vec![
            ContainerPort {
                container_port: 9000,
                name: Some("web-main".to_string()),
                protocol: Some("TCP".to_string()),
            },
            ContainerPort {
                container_port: 8000,
                name: Some("http-main".to_string()),
                protocol: Some("TCP".to_string()),
            },
            ContainerPort {
                container_port: 53,
                name: None,
                protocol: Some("UDP".to_string()),
            },
        ],
    }
}

#[test]
fn kubernetes_pods_are_rebuilt_with_their_protocols() {
    let rebuilt = rebuild_instance(&pod()).unwrap().unwrap();
    assert!(same(
        &rebuilt,
        &instance(
            "i",
            "user-service",
            "v1",
            &[
                "grpc://10.1.0.5:9000",
                "http://10.1.0.5:8000",
                "UDP://10.1.0.5:53",
            ]
        )
    ));
}

#[test]
fn kubernetes_pods_that_do_not_run_are_left_out() {
    let mut pending = pod();
    pending.phase = Some("Pending".to_string());
    pending.annotations = map(&[("wind-service-protocols", "{")]);
    assert!(rebuild_instance(&pending).unwrap().is_none());
    assert_eq!(rebuild_instances(&vec![pending, pod()]).unwrap().len(), 1);
}

#[test]
fn kubernetes_malformed_annotations_fail() {
    let mut broken = pod();
    broken.annotations = map(&[("wind-service-metadata", "{")]);
    let refused = reason(rebuild_instance(&broken).err().unwrap());
    assert!(refused.starts_with("kubernetes annotation parse: "));
    for empty in ["", "{}", "null", "nil", "[]"] {
        assert_eq!(parse_object_string(empty).unwrap().len(), 0);
    }
    assert_eq!(
        parse_object_string("{\"a\":\"b\"}").unwrap(),
        vec![("a".to_string(), "b".to_string())]
    );
}

#[test]
fn kubernetes_patches_label_the_pod() {
    let patch = registration_patch(&sample()).unwrap();
    assert_eq!(patch.labels.get("wind-service-id").unwrap(), "inst-1");
    assert_eq!(patch.labels.get("wind-service-app").unwrap(), "user-service");
    assert_eq!(patch.labels.get("wind-service-version").unwrap(), "v1.0.0");
    let protocols = patch.annotations.get("wind-service-protocols").unwrap();
    let read = parse_object_string(protocols).unwrap();
    assert!(read.contains(&("9000".to_string(), "grpc".to_string())));
    assert!(read.contains(&("8000".to_string(), "http".to_string())));
    let cleared = deregistration_patch();
    assert_eq!(cleared.labels.get("wind-service-id").unwrap(), "");
    assert_eq!(selector("user-service"), "wind-service-app=user-service");
}

#[test]
fn kubernetes_patches_are_written_as_metadata() {
    assert_eq!(
        deregistration_patch().body(),
        concat(&[
            r#"{"metadata":{"annotations":{"wind-service-metadata":"{}","#,
            r#""wind-service-protocols":"{}"},"labels":{"wind-service-app":"","#,
            r#""wind-service-id":"","wind-service-version":""}}}"#,
        ])
    );
}

#[test]
fn kubernetes_patched_pods_read_back() {
    let bare = Registration::new(instance("i", "n", "v", &[]));
    for registration in [sample().with_metadata(map(&[("zone", "z")])), sample(), bare] {
        let patch = registration_patch(&registration).unwrap();
        let mut patched = pod();
        patched.labels = patch.labels;
        patched.annotations = patch.annotations;
        let back = rebuild_instance(&patched).unwrap().unwrap();
        assert_eq!(back.id, registration.instance.id);
        assert_eq!(back.name, registration.instance.name);
        assert_eq!(back.version, registration.instance.version);
        let first = if registration.instance.endpoints.is_empty() {
            "web://10.1.0.5:9000"
        } else {
            "grpc://10.1.0.5:9000"
        };
        assert_eq!(back.endpoints[0], first);
    }
}

#[test]
fn kubernetes_protocol_maps_key_portless_endpoints_by_nothing() {
    let registration = Registration::new(instance("i", "n", "v", &["http://host"]));
    assert_eq!(build_protocol_map(&registration).unwrap(), "{\"\":\"http\"}");
    let registration = Registration::new(instance("i", "n", "v", &["host"]));
    assert!(build_protocol_map(&registration).is_err());
}

// Nacos.

#[test]
fn nacos_endpoints_are_named_after_their_scheme() {
    let registration = sample().with_metadata(map(&[("zone", "z"), ("weight", "2.5")]));
    let plan = plan_endpoint(&registration, "grpc://10.0.0.1:9000").unwrap();
    assert_eq!(plan.service_name, "user-service.grpc");
    assert_eq!(plan.ip, "10.0.0.1");
    assert_eq!(plan.port, 9000);
    assert_eq!(plan.weight.as_deref(), Some("2.5"));
    assert_eq!(plan.metadata.get("kind").unwrap(), "grpc");
    assert_eq!(plan.metadata.get("version").unwrap(), "v1.0.0");
    assert_eq!(plan.metadata.get("zone").unwrap(), "z");
}

#[test]
fn nacos_instances_are_rebuilt_with_a_default_kind() {
    let with = ServiceInstance {
        instance_id: Some("i".to_string()),
        service_name: Some("n".to_string()),
        ip: "1.2.3.4".to_string(),
        port: 5,
        metadata: map(&[("kind", "http"), ("version", "v")]),
    };
    let without = ServiceInstance {
        instance_id: None,
        service_name: None,
        ip: "1.2.3.4".to_string(),
        port: 6,
        metadata: StringMap::new(),
    };
    let rebuilt = rebuild(&vec![with, without], "grpc");
    assert!(same(&rebuilt[0], &instance("i", "n", "v", &["http://1.2.3.4:5"])));
    assert!(same(&rebuilt[1], &instance("", "", "", &["grpc://1.2.3.4:6"])));
}

#[test]
fn nacos_operations_settle() {
    assert!(settle_endpoint("register", "n.grpc", "grpc://a", Ok(())).is_ok());
    let refused = settle_endpoint("register", "n.grpc", "grpc://a", Err("no".to_string()));
    assert!(reason(refused.err().unwrap()).ends_with(": no"));
}

// Polaris.

#[test]
fn polaris_replies_are_accepted_by_their_code() {
    assert!(accept_reply("RegisterInstance", "{\"code\":200000}").is_ok());
    let refused = accept_reply("RegisterInstance", "{\"code\":400,\"info\":\"bad\"}");
    assert_eq!(
        reason(refused.err().unwrap()),
        "polaris RegisterInstance: code 400: bad"
    );
    let garbled = accept_reply("RegisterInstance", "{");
    assert!(reason(garbled.err().unwrap()).starts_with("polaris RegisterInstance: parse: "));
}

#[test]
fn polaris_discovers_what_is_not_known_to_be_unhealthy() {
    let text = concat(&[
        "{\"code\":200000,\"instances\":[",
        "{\"id\":\"a\",\"host\":\"10.0.0.1\",\"port\":80,\"metadata\":{\"kind\":\"grpc\"}},",
        "{\"id\":\"b\",\"host\":\"10.0.0.2\",\"port\":81,\"healthy\": false },",
        "{\"id\":\"\",\"host\":\"10.0.0.3\",\"port\":82}",
        "]}",
    ]);
    let instances = discover("svc", &text).unwrap();
    assert_eq!(instances.len(), 1);
    assert_eq!(instances[0].id, "a");
    assert_eq!(instances[0].name, "svc");
    assert_eq!(instances[0].endpoints, texts(&["grpc://10.0.0.1:80"]));
}

fn concat(parts: &[&str]) -> String {
    parts.join("")
}

#[test]
fn polaris_requests_name_the_scheme_and_the_version() {
    let registry = PolarisRegistry::connect("http://p/").unwrap();
    let plan = registry
        .plan_endpoint(&sample(), "grpc://10.0.0.1:9000")
        .unwrap();
    assert_eq!(plan.service, "user-servicegrpc");
    assert_eq!(plan.namespace, "default");
    assert_eq!(plan.host, "10.0.0.1");
    assert_eq!(plan.port, 9000);
    assert_eq!(plan.weight, 100);
    assert_eq!(plan.version, "v1.0.0");
    assert_eq!(plan.metadata.get("kind").unwrap(), "grpc");
    let body = registry.discover_body("svc");
    assert_eq!(body.service, "svc");
    assert_eq!(
        body.body(),
        r#"{"service":{"name":"svc","namespace":"default"},"type":"INSTANCE"}"#
    );
    assert_eq!(
        plan.body(),
        concat(&[
            r#"{"host":"10.0.0.1","metadata":{"kind":"grpc","version":"v1.0.0"},"#,
            r#""namespace":"default","port":9000,"service":"user-servicegrpc","#,
            r#""version":"v1.0.0","weight":100}"#,
        ])
    );
    assert_eq!(
        plan.removal_body(),
        r#"{"host":"10.0.0.1","namespace":"default","port":9000,"service":"user-servicegrpc"}"#
    );
    assert_eq!(registry.request_url("Discover"), "http://p/v1/Discover");
}

#[test]
fn polaris_polls_publish_changes_only() {
    let mut registry = PolarisRegistry::connect("p").unwrap();
    registry.sets.begin_watch("svc");
    let one = || Ok(vec![instance("i", "svc", "v", &[])]);
    assert!(registry.poll("svc", one()));
    assert!(!registry.poll("svc", one()));
    assert!(!registry.poll("svc", Err(RegistryError::Failed("x".to_string()))));
    assert_eq!(registry.sets.get("svc").unwrap().len(), 1);
}

// ServiceComb.

fn service_center() -> ServicecombRegistry<u8> {
    let options = ServicecombOptions {
        app_id: "app".to_string(),
        environment: "a b".to_string(),
    };
    ServicecombRegistry::connect_with("http://sc/", options).unwrap()
}

#[test]
fn url_encoding_keeps_unreserved_bytes() {
    assert_eq!(urlencode("aZ9-_.~"), "aZ9-_.~");
    assert_eq!(urlencode("a b/\u{e9}"), "a%20b%2F%C3%A9");
    assert_eq!(urlencode(""), "");
}

#[test]
fn service_center_registrations_name_the_service_once() {
    let mut registry = service_center();
    let first = registry.begin_register(&sample());
    assert_eq!(first.url, "http://sc/v4/default/registry/microservices");
    assert_eq!(first.service_name, "user-service");
    assert_eq!(first.framework_name, "wind");
    let other = Registration::new(instance("j", "other", "v9", &[]));
    let second = registry.begin_register(&other);
    assert_eq!(second.service_name, "user-service");
    assert_eq!(second.version, "v1.0.0");
}

#[test]
fn service_center_creation_falls_back_on_the_lookup() {
    let mut registry = service_center();
    registry.begin_register(&sample());
    assert!(registry.watch_target().is_err());
    let taken = Answer::Status(400, "{\"errorCode\":\"400010\"}".to_string());
    let CreateStep::Lookup(url) = registry.service_created(taken, Err("x".to_string())) else {
        panic!("no lookup");
    };
    assert_eq!(
        url,
        concat(&[
            "http://sc/v4/default/registry/existence?type=microservice&appId=app",
            "&serviceName=user-service&version=v1.0.0&env=a%20b",
        ])
    );
    let found = Answer::Status(200, String::new());
    let id = registry.service_looked_up(found, Ok("s1".to_string()), true);
    assert_eq!(id.unwrap(), "s1");
    assert_eq!(registry.watch_target().unwrap(), "s1");
}

#[test]
fn service_center_creation_fails_on_other_answers() {
    let mut registry = service_center();
    registry.begin_register(&sample());
    let CreateStep::Fail(error) =
        registry.service_created(Answer::Lost("gone".to_string()), Err(String::new()))
    else {
        panic!("a lost request was accepted");
    };
    assert_eq!(reason(error), "servicecomb create service: gone");
    let answer = Answer::Status(500, "boom".to_string());
    let CreateStep::Fail(error) = registry.service_created(answer, Err(String::new())) else {
        panic!("an error was accepted");
    };
    assert_eq!(reason(error), "servicecomb create service: HTTP 500: boom");
    let answer = Answer::Status(200, "?".to_string());
    let CreateStep::Fail(error) = registry.service_created(answer, Err("eof".to_string())) else {
        panic!("a garbled body was accepted");
    };
    assert_eq!(reason(error), "servicecomb create parse: eof");
    let answer = Answer::Status(201, "{}".to_string());
    let CreateStep::Have(id) = registry.service_created(answer, Ok("s2".to_string())) else {
        panic!("a success was refused");
    };
    assert_eq!(id, "s2");
}

#[test]
fn service_center_instances_get_a_random_id_where_they_have_none() {
    let registry = service_center();
    let own = registry.new_instance_request(&sample(), "s1");
    assert_eq!(own.instance_id, "inst-1");
    assert_eq!(
        own.body(),
        concat(&[
            r#"{"instance":{"endpoints":["grpc://10.0.0.1:9000","http://10.0.0.1:8000"],"#,
            r#""hostName":"inst-1","instanceId":"inst-1","#,
            r#""properties":{"appId":"app","environment":"a b"},"#,
            r#""serviceId":"s1","version":"v1.0.0"}}"#,
        ])
    );
    let mut fresh = service_center();
    assert_eq!(
        fresh.begin_register(&sample()).body(),
        concat(&[
            r#"{"service":{"appId":"app","framework":{"name":"wind","version":"v2"},"#,
            r#""serviceName":"user-service","version":"v1.0.0"}}"#,
        ])
    );
    assert_eq!(
        own.url,
        "http://sc/v4/default/registry/microservices/s1/instances"
    );
    let nameless = Registration::new(instance("", "n", "v", &[]));
    let a = registry.new_instance_request(&nameless, "s1").instance_id;
    let b = registry.new_instance_request(&nameless, "s1").instance_id;
    assert_eq!(a.len(), 32);
    assert!(a.chars().all(|c| matches!(c, '0'..='9' | 'a'..='f')));
    assert_ne!(a, b);
}

#[test]
fn service_center_urls() {
    let registry = service_center();
    assert_eq!(
        registry.heartbeat_url("s/1", "i"),
        "http://sc/v4/default/registry/microservices/s%2F1/instances/i/heartbeat"
    );
    assert_eq!(
        registry.deregister_url("s", "i/1"),
        "http://sc/v4/default/registry/microservices/s/instances/i%2F1"
    );
    assert_eq!(
        registry.find_url("svc"),
        "http://sc/v4/default/registry/instances?appId=app&serviceName=svc&version=&env=a%20b"
    );
    let mut elsewhere = service_center();
    elsewhere.environment = "prod".to_string();
    assert_ne!(registry.find_url("svc"), elsewhere.find_url("svc"));
    assert_eq!(
        registry.watcher_url("s"),
        "ws://sc/v4/default/registry/microservices/s/watcher"
    );
}

#[test]
fn service_center_instances_are_listed_under_the_service_asked_for() {
    let wire = WireInstance {
        instance_id: Some("i".to_string()),
        service_id: Some("s1".to_string()),
        endpoints: Some(texts(&["rest://a:1"])),
    };
    let listed = find_instances(
        "svc",
        Answer::Status(200, String::new()),
        Ok(Some(vec![wire])),
    );
    assert!(same(
        &listed.unwrap()[0],
        &instance("i", "svc", "s1", &["rest://a:1"])
    ));
    let none = find_instances("svc", Answer::Status(200, String::new()), Ok(None));
    assert_eq!(none.unwrap().len(), 0);
    let refused = find_instances("svc", Answer::Status(404, "no".to_string()), Ok(None));
    assert_eq!(
        reason(refused.err().unwrap()),
        "servicecomb find instances: HTTP 404: no"
    );
    assert!(settle_answer("servicecomb deregister", Answer::Status(204, String::new())).is_ok());
}

#[test]
fn service_center_events_of_other_services_are_dropped() {
    let event = |name: Option<&str>, wire: Option<WireInstance>| WireChangedEvent {
        service_name: name.map(|n| n.to_string()),
        version: Some("v1".to_string()),
        instance: wire,
    };
    let wire = || {
        Some(WireInstance {
            instance_id: Some("i".to_string()),
            service_id: None,
            endpoints: None,
        })
    };
    let told = changed_instance(event(Some("svc"), wire()), "svc").unwrap();
    assert!(same(&told, &instance("i", "svc", "v1", &[])));
    assert!(changed_instance(event(Some("other"), wire()), "svc").is_none());
    assert!(changed_instance(event(None, wire()), "svc").is_none());
    assert!(changed_instance(event(Some("svc"), None), "svc").is_none());
    let mut watcher = ServicecombWatcher { stopped: false };
    assert!(watcher.begin_next().is_ok());
    assert_eq!(watcher.finish_next(Some(told)).unwrap().len(), 1);
    watcher.stop();
    assert_eq!(
        reason(watcher.begin_next().err().unwrap()),
        "watcher stopped"
    );
}

#[test]
fn service_center_dials_back_off_up_to_the_cap() {
    let mut backoff = Backoff::new();
    let waits: Vec<u64> = (0..7).map(|_| backoff.broken()).collect();
    assert_eq!(waits, vec![1, 2, 4, 8, 16, 30, 30]);
    backoff.connected();
    assert_eq!(backoff.broken(), 1);
}

// ZooKeeper.

fn ensemble() -> ZookeeperRegistry<u8> {
    ZookeeperRegistry::connect_with("/wind", None)
}

#[test]
fn zookeeper_settings_need_both_halves_of_a_digest() {
    let settings = |user: Option<&str>, password: Option<&str>| ZookeeperSettings {
        connect_string: "a".to_string(),
        namespace: None,
        digest_user: user.map(|s| s.to_string()),
        digest_password: password.map(|s| s.to_string()),
    };
    let both: ZookeeperRegistry<u8> =
        ZookeeperRegistry::from_settings(settings(Some("u"), Some("p")));
    assert_eq!(both.digest_credentials().as_deref(), Some("u:p"));
    assert_eq!(both.namespace, "/microservices");
    let half: ZookeeperRegistry<u8> = ZookeeperRegistry::from_settings(settings(Some("u"), None));
    assert_eq!(half.digest_credentials(), None);
}

#[test]
fn zookeeper_announcements_create_the_nodes_in_order() {
    let nodes = ensemble().nodes(&sample());
    assert_eq!(nodes[0].path, "/wind");
    assert_eq!(nodes[1].path, "/wind/user-service");
    assert_eq!(nodes[2].path, "/wind/user-service/inst-1");
    assert!(nodes[2].ephemeral && !nodes[1].ephemeral);
    assert_eq!(nodes[2].data, registry_json(&sample()));
    let mut announcement = Announcement::start(nodes);
    assert!(matches!(
        announcement.step(NodeEvent::Exists(0)),
        AnnounceAction::Check
    ));
    assert!(matches!(
        announcement.step(NodeEvent::Absent),
        AnnounceAction::Create
    ));
    assert!(matches!(
        announcement.step(NodeEvent::Done),
        AnnounceAction::Check
    ));
    assert!(matches!(
        announcement.step(NodeEvent::Exists(4)),
        AnnounceAction::Delete(4)
    ));
    assert!(matches!(
        announcement.step(NodeEvent::Absent),
        AnnounceAction::Create
    ));
    assert!(matches!(
        announcement.step(NodeEvent::AlreadyThere),
        AnnounceAction::Recheck
    ));
    assert!(matches!(
        announcement.step(NodeEvent::Exists(5)),
        AnnounceAction::Registered
    ));
}

#[test]
fn zookeeper_announcements_end_on_a_failure() {
    let failing = |events: Vec<NodeEvent>| {
        let mut announcement = Announcement::start(ensemble().nodes(&sample()));
        let mut last = AnnounceAction::Check;
        for event in events {
            last = announcement.step(event);
        }
        match last {
            AnnounceAction::Fail(error) => reason(error),
            _ => panic!("no failure"),
        }
    };
    let no = || NodeEvent::Failed("no".to_string());
    assert_eq!(failing(vec![no()]), "zookeeper exists /wind: no");
    assert_eq!(
        failing(vec![NodeEvent::Absent, no()]),
        "zookeeper create /wind: no"
    );
    assert_eq!(
        failing(vec![
            NodeEvent::Absent,
            NodeEvent::AlreadyThere,
            NodeEvent::Absent
        ]),
        "zookeeper create /wind: node vanished mid-race"
    );
    assert_eq!(
        failing(vec![
            NodeEvent::Exists(0),
            NodeEvent::Exists(0),
            NodeEvent::Exists(3),
            no()
        ]),
        "zookeeper delete /wind/user-service/inst-1: no"
    );
}

#[test]
fn zookeeper_keepers_act_on_every_connection_but_the_first() {
    let mut keeper = Keeper { established: false };
    assert!(!keeper.changed(false));
    assert!(!keeper.changed(true));
    assert!(!keeper.changed(false));
    assert!(keeper.changed(true));
}

#[test]
fn zookeeper_keepers_of_a_used_session_act_on_every_connection() {
    let mut keeper = Keeper::start();
    assert!(!keeper.changed(false));
    assert!(keeper.changed(true));
    assert!(keeper.changed(true));
}

#[test]
fn zookeeper_watches_fall_back_on_the_creation() {
    assert!(matches!(
        children_armed("/p", ArmEvent::Armed),
        WatchAction::Wait
    ));
    assert!(matches!(
        children_armed("/p", ArmEvent::Absent),
        WatchAction::ArmExists
    ));
    let WatchAction::Fatal(text) = children_armed("/p", ArmEvent::Failed("no".to_string())) else {
        panic!("went on");
    };
    assert_eq!(text, "zookeeper watch /p: arm failed: no");
    assert!(matches!(exists_armed("/p", true), WatchAction::Wait));
    let WatchAction::Fatal(text) = exists_armed("/p", false) else {
        panic!("went on");
    };
    assert_eq!(text, "zookeeper watch /p: exists arm failed");
    assert!(rearms(true, true) && !rearms(false, true) && !rearms(true, false));
}

#[test]
fn zookeeper_watchers_read_on_a_firing() {
    let mut watcher = ZookeeperWatcher::new();
    assert!(matches!(
        watcher.begin_next(),
        rushwind::registry::zookeeper::NextStep::Read
    ));
    assert!(matches!(
        watcher.begin_next(),
        rushwind::registry::zookeeper::NextStep::Wait
    ));
    let after = |watcher: &ZookeeperWatcher, signal: Option<WatchSignal>| match watcher
        .signalled(signal)
    {
        rushwind::registry::zookeeper::NextStep::Fail(error) => Some(reason(error)),
        _ => None,
    };
    let event = |state| Some(WatchSignal::Event(state));
    assert_eq!(after(&watcher, event(KeeperState::SyncConnected)), None);
    assert_eq!(
        after(&watcher, event(KeeperState::Disconnected)).unwrap(),
        "watcher stopped: connection lost"
    );
    assert_eq!(
        after(&watcher, event(KeeperState::Expired)).unwrap(),
        "zookeeper watch: session state Expired"
    );
    assert_eq!(after(&watcher, None).unwrap(), "watcher stopped");
    watcher.stop();
    assert!(matches!(
        watcher.begin_next(),
        rushwind::registry::zookeeper::NextStep::Fail(_)
    ));
}

#[test]
fn zookeeper_children_are_read_back_as_they_were_written() {
    let child = |registration: &Registration| ChildNode {
        name: registration.instance.id.clone(),
        data: Ok(registry_json(registration).into_bytes()),
    };
    let other = Registration::new(instance("j", "other", "v", &[]));
    let all = read_instances("/p", Ok(vec![child(&sample()), child(&other)]), None).unwrap();
    assert_eq!(all.len(), 2);
    assert!(same(&all[0], &sample().instance));
    let own = read_instances(
        "/p",
        Ok(vec![child(&sample()), child(&other)]),
        Some("other"),
    )
    .unwrap();
    assert_eq!(own.len(), 1);
    assert!(same(&own[0], &other.instance));
}

#[test]
fn zookeeper_children_without_data_fail_the_read() {
    let refused = read_instances("/p", Err("no".to_string()), None);
    assert_eq!(reason(refused.err().unwrap()), "zookeeper children /p: no");
    let child = ChildNode {
        name: "c".to_string(),
        data: Err("no".to_string()),
    };
    let refused = read_instances("/p", Ok(vec![child]), None);
    assert_eq!(reason(refused.err().unwrap()), "zookeeper get /p/c: no");
    let mut bytes = b"{\"id\":\"".to_vec();
    bytes.push(0xff);
    bytes.extend_from_slice(b"\"}");
    let child = ChildNode {
        name: "c".to_string(),
        data: Ok(bytes),
    };
    let read = read_instances("/p", Ok(vec![child]), None).unwrap();
    assert_eq!(read[0].id, "\u{fffd}");
}

// What is announced is found again.

#[test]
fn consul_registrations_resolve_back() {
    let registration = sample();
    let wire = build_registration(&ConsulOptions::default(), &registration).unwrap();
    let shown = WireService {
        id: wire.id,
        service: wire.name,
        tags: Some(wire.tags),
        address: wire.address,
        port: wire.port,
        tagged_addresses: wire.tagged_addresses,
    };
    assert!(same(
        &resolve_entries(&vec![shown])[0],
        &registration.instance
    ));
}

#[test]
fn eureka_endpoints_read_back() {
    let wire = build_wire_endpoint(&sample(), "grpc://10.0.0.1:9000").unwrap();
    let body = wire.to_wire_instance();
    assert_eq!(
        body.body(),
        concat(&[
            r#"{"instance":{"instanceId":"10.0.0.1.USER-SERVICE:9000","#,
            r#""hostName":"USER-SERVICE","port":{"$":9000,"@enabled":"true"},"#,
            r#""app":"USER-SERVICE","ipAddr":"10.0.0.1","vipAddress":"USER-SERVICE","#,
            r#""status":"UP","securePort":{"$":443,"@enabled":"false"},"#,
            r#""homePageUrl":"grpc://10.0.0.1:9000/","#,
            r#""statusPageUrl":"grpc://10.0.0.1:9000/info","#,
            r#""healthCheckUrl":"grpc://10.0.0.1:9000/health","#,
            r#""dataCenterInfo":{"name":"MyOwn","#,
            r#""@class":"com.netflix.appinfo.InstanceInfo$DefaultDataCenterInfo"},"#,
            r#""metadata":{"Endpoints":"grpc://10.0.0.1:9000","ID":"inst-1","#,
            r#""Name":"user-service","Version":"v1.0.0","agent":"go-eureka-client"}}}"#,
        ])
    );
    assert_eq!(body.status, "UP");
    assert_eq!(body.port.number, 9000);
    let listed = WireApplication {
        name: wire.app_id.clone(),
        instance: Some(vec![WireInstanceOut {
            instance_id: Some(body.instance_id),
            status: Some(body.status),
            metadata: Some(body.metadata),
        }]),
    };
    assert!(same(
        &group_applications(&vec![listed])[0].instances[0],
        &instance("inst-1", "user-service", "v1.0.0", &["grpc://10.0.0.1:9000"])
    ));
}

#[test]
fn nacos_endpoints_read_back() {
    let plan = plan_endpoint(&sample(), "grpc://10.0.0.1:9000").unwrap();
    let listed = ServiceInstance {
        instance_id: Some("i".to_string()),
        service_name: Some(plan.service_name),
        ip: plan.ip,
        port: plan.port,
        metadata: plan.metadata,
    };
    let back = rebuild(&vec![listed], "http");
    assert_eq!(back[0].version, "v1.0.0");
    assert_eq!(back[0].endpoints, texts(&["grpc://10.0.0.1:9000"]));
}

#[test]
fn polaris_endpoints_read_back() {
    let registry = PolarisRegistry::connect("p").unwrap();
    let plan = registry
        .plan_endpoint(&sample(), "grpc://10.0.0.1:9000")
        .unwrap();
    let text = format!(
        "{{\"code\":200000,\"instances\":[{{\"id\":\"i\",\"host\":\"{}\",\"port\":{},\
         \"metadata\":{{\"kind\":\"{}\",\"version\":\"{}\"}}}}]}}",
        plan.host,
        plan.port,
        plan.metadata.get("kind").unwrap(),
        plan.metadata.get("version").unwrap()
    );
    let back = discover("user-servicegrpc", &text).unwrap();
    assert!(same(
        &back[0],
        &instance("i", "user-servicegrpc", "v1.0.0", &["grpc://10.0.0.1:9000"])
    ));
}

#[test]
fn kubernetes_pods_read_back() {
    let registration = sample();
    let patch = registration_patch(&registration).unwrap();
    let port = |number: i32| ContainerPort {
        container_port: number,
        name: None,
        protocol: Some("TCP".to_string()),
    };
    let patched = Pod {
        phase: Some("Running".to_string()),
        pod_ip: Some("10.0.0.1".to_string()),
        labels: patch.labels,
        annotations: patch.annotations,
        ports: vec![port(9000), port(8000)],
    };
    assert!(same(
        &rebuild_instance(&patched).unwrap().unwrap(),
        &registration.instance
    ));
}

#[test]
fn etcd_leases_leave_room_for_three_refreshes() {
    for ttl in [3i64, 4, 15, 61] {
        let refreshes = i64::try_from(refresh_interval(ttl)).unwrap() * 3;
        assert!(refreshes <= ttl);
    }
}

#[test]
fn different_texts_are_encoded_differently() {
    assert_ne!(urlencode("a%20"), urlencode("a "));
    assert_ne!(urlencode("a/b"), urlencode("a%2Fb"));
}
