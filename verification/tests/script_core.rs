use rushwind::script::engine::{Capabilities, Quota, SandboxConfigurator};
use rushwind::script::error::{last_failure, ScriptError};
use rushwind::script::factory::{
    factory_missing, get_factory, list_factories, new_script_engine, register_factory,
    unregister_factory, FactoryRegistry,
};
use rushwind::script::lua::LuaEngine;
use rushwind::script::manager::Manager;
use rushwind::script::source::fs::{FileSystemSource, StaticTree};
use rushwind::script::source::multiple::{MultiSource, MultiStrategy};
use rushwind::script::sweep::Sweep;

type MockFactory = fn() -> Result<&'static str, ScriptError>;

fn mock_factory() -> Result<&'static str, ScriptError> {
    Ok("mock-factory")
}

#[test]
fn registered_factories_are_listed_and_fetched() {
    let mut registry: FactoryRegistry<MockFactory> = FactoryRegistry::new();
    register_factory(&mut registry, "mock-factory-a", mock_factory).expect("register a");
    register_factory(&mut registry, "mock-factory-b", mock_factory).expect("register b");
    assert!(get_factory(&registry, "mock-factory-a").is_some());
    let names = list_factories(&registry);
    assert!(names.contains(&"mock-factory-a".to_string()));
    assert!(names.contains(&"mock-factory-b".to_string()));
    unregister_factory(&mut registry, "mock-factory-a");
    unregister_factory(&mut registry, "mock-factory-b");
    assert!(get_factory(&registry, "mock-factory-a").is_none());
    assert!(!list_factories(&registry).contains(&"mock-factory-a".to_string()));
}

#[test]
fn duplicate_registration_fails() {
    let mut registry: FactoryRegistry<MockFactory> = FactoryRegistry::new();
    register_factory(&mut registry, "mock-factory-dup", mock_factory).expect("register");
    assert!(matches!(
        register_factory(&mut registry, "mock-factory-dup", mock_factory),
        Err(ScriptError::Failed(_))
    ));
    assert!(unregister_factory(&mut registry, "mock-factory-dup"));
    assert!(!unregister_factory(&mut registry, "mock-factory-dup"));
}

#[test]
fn unregistered_types_are_rejected() {
    let registry: FactoryRegistry<MockFactory> = FactoryRegistry::new();
    assert!(matches!(
        new_script_engine(&registry, "mock-factory-missing"),
        Err(ScriptError::Failed(msg)) if msg.contains("not registered")
    ));
}

#[test]
fn registered_types_produce_engines() {
    let mut registry: FactoryRegistry<MockFactory> = FactoryRegistry::new();
    register_factory(&mut registry, "mock-factory-ok", mock_factory).expect("register");
    let engine = new_script_engine(&registry, "mock-factory-ok").expect("engine from factory");
    assert_eq!(engine, "mock-factory");
    unregister_factory(&mut registry, "mock-factory-ok");
}

#[test]
fn factory_complaints_quote_the_name() {
    assert_eq!(
        factory_missing("a\"b"),
        ScriptError::Failed("script engine factory \"a\\\"b\" not registered".to_string())
    );
}

#[test]
fn duplicate_names_are_rejected() {
    let mut manager = Manager::new();
    manager
        .register("dup", "mock-manager-dup")
        .expect("register");
    assert!(matches!(
        manager.register("dup", "mock-manager-dup"),
        Err(ScriptError::Failed(_))
    ));
}

#[test]
fn empty_names_are_rejected() {
    let mut manager = Manager::new();
    assert!(matches!(
        manager.register("", "mock-manager-empty"),
        Err(ScriptError::Failed(_))
    ));
}

#[test]
fn engines_register_and_fetch_by_name() {
    let mut manager = Manager::new();
    manager
        .register("alpha", "mock-manager-alpha")
        .expect("register alpha");
    assert_eq!(*manager.get("alpha").expect("fetch alpha"), "mock-manager-alpha");
    assert!(manager.get("missing").is_none());
}

#[test]
fn close_all_closes_and_clears() {
    let mut manager = Manager::new();
    manager.register("a", "mock-manager-close-a").expect("register a");
    manager.register("b", "mock-manager-close-b").expect("register b");
    let closed = manager.close_all();
    assert_eq!(closed, vec!["mock-manager-close-a", "mock-manager-close-b"]);
    assert_eq!(last_failure(&vec![Ok(()), Ok(())]), Ok(()));
    assert!(manager.get("a").is_none());
    assert!(manager.get("b").is_none());
}

#[test]
fn remove_with_close_closes_the_engine() {
    let mut manager = Manager::new();
    manager.register("x", "mock-manager-remove-a").expect("register");
    assert_eq!(manager.remove("x", true), Some("mock-manager-remove-a"));
    assert!(manager.get("x").is_none());
}

#[test]
fn remove_without_close_leaves_the_engine_alive() {
    let mut manager = Manager::new();
    manager.register("x", "mock-manager-remove-b").expect("register");
    assert_eq!(manager.remove("x", false), None);
    assert!(manager.get("x").is_none());
}

#[test]
fn the_default_name_resolves_through_get() {
    let mut manager = Manager::new();
    manager.register("dflt", "mock-manager-default").expect("register");
    assert!(manager.get_default().is_none());
    manager.set_default("dflt");
    assert_eq!(
        *manager.get_default().expect("default resolves"),
        "mock-manager-default",
        "the default resolves the same engine"
    );
}

#[test]
fn the_last_close_failure_is_reported() {
    let first = ScriptError::Failed("one".to_string());
    let second = ScriptError::Failed("two".to_string());
    assert_eq!(
        last_failure(&vec![Err(first), Ok(()), Err(second.clone()), Ok(())]),
        Err(second)
    );
}

#[test]
fn init_all_aborts_on_the_first_failure() {
    let mut manager = Manager::new();
    for name in ["a", "b", "c"] {
        manager.register(name, name).expect("register");
    }
    let mut sweep = Sweep::new(manager.len());
    let mut visited = Vec::new();
    let mut outcome = Ok(());
    while let Some(i) = sweep.next() {
        visited.push(*manager.engine_at(i));
        let answer = if i == 1 {
            Err(ScriptError::Failed("init refused".to_string()))
        } else {
            Ok(i)
        };
        outcome = sweep.took(answer);
        if outcome.is_err() {
            break;
        }
    }
    assert_eq!(visited, vec!["a", "b"]);
    assert_eq!(outcome, Err(ScriptError::Failed("init refused".to_string())));
    assert_eq!(sweep.finish(), vec![0]);
}

#[test]
fn unsupported_capabilities_probe_none() {
    let lifecycle = Capabilities::lifecycle_only();
    assert!(!lifecycle.loader);
    assert!(!lifecycle.executor);
    assert!(!lifecycle.globals);
    assert!(!lifecycle.functions);
    assert!(!lifecycle.modules);
    assert!(!lifecycle.watcher);
    assert!(!lifecycle.sandbox);
    assert!(!lifecycle.runtime_hooks);
    assert!(!lifecycle.sync_executor);
    assert!(!lifecycle.quota);
    assert!(!lifecycle.is_full());

    let full = Capabilities::aggregate();
    assert!(full.is_full());
    assert!(!full.runtime_hooks);
    assert!(!full.sync_executor);
    assert!(!full.quota);
}

#[test]
fn the_sandbox_capability_flows_through_a_full_engine() {
    let mut engine: LuaEngine<(), (), (), ()> = LuaEngine::new();
    assert!(engine.capabilities().sandbox, "full engine offers the sandbox capability");
    assert!(engine.capabilities().is_full());
    engine.set_open_libs(&["base", "string"]);
    assert_eq!(
        engine.libs,
        vec!["base".to_string(), "string".to_string()],
        "the capability writes the same engine's recorded state"
    );
}

#[test]
fn the_sandbox_capability_is_standalone() {
    let no_sandbox = Capabilities::aggregate();
    assert!(no_sandbox.is_full());
    assert!(no_sandbox.watcher, "the watcher capability is embedded in the aggregate");
    assert!(!no_sandbox.sandbox);

    let with_sandbox: LuaEngine<(), (), (), ()> = LuaEngine::new();
    assert!(with_sandbox.capabilities().sandbox);
}

#[test]
fn a_default_quota_is_no_bound() {
    let none = Quota::default();
    assert!(!none.is_overrun(u128::MAX));
    let some = Quota {
        timeout: Some(10),
        max_instructions: None,
    };
    assert!(!some.is_overrun(9));
    assert!(some.is_overrun(10));
}

#[test]
fn script_error_messages() {
    assert_eq!(
        ScriptError::Failed("x".to_string()).message(),
        "script engine: operation failed: x"
    );
    assert_eq!(
        ScriptError::CapabilityNotSupported.message(),
        "script engine: capability not supported by this engine type"
    );
    assert_eq!(
        ScriptError::QuotaExceeded.message(),
        "script engine: execution quota exceeded"
    );
}

struct MapTree(Vec<(String, String)>);

impl StaticTree for MapTree {
    fn read(&self, path: &str) -> Option<String> {
        self.0
            .iter()
            .find(|(k, _)| k == path)
            .map(|(_, v)| v.clone())
    }
}

fn map_tree(pairs: &[(&str, &str)]) -> MapTree {
    MapTree(
        pairs
            .iter()
            .map(|(k, v)| (k.to_string(), v.to_string()))
            .collect(),
    )
}

#[test]
fn prefixes_normalize_predictably() {
    let cases: [(&str, &str); 4] = [("/a/", "a/"), ("b", "b/"), ("c/", "c/"), ("/", "")];
    for (input, expected) in cases {
        let source = FileSystemSource::new(map_tree(&[])).with_prefix(input);
        assert_eq!(source.prefix, expected, "prefix {input:?}");
    }
}

#[test]
fn a_map_tree_serves_its_entries() {
    let source = FileSystemSource::new(map_tree(&[("scripts/a.lua", "map-content")]));
    assert_eq!(
        source.load("scripts/a.lua").expect("load from map tree"),
        "map-content"
    );
}

#[test]
fn a_prefix_joins_the_lookup_path() {
    let source =
        FileSystemSource::new(map_tree(&[("scripts/b.lua", "prefixed")])).with_prefix("scripts");
    assert_eq!(source.load("b.lua").expect("prefixed load"), "prefixed");
}

#[test]
fn a_leading_slash_strips_before_the_prefix_joins() {
    let source =
        FileSystemSource::new(map_tree(&[("scripts/c.lua", "slashed")])).with_prefix("scripts");
    assert_eq!(source.load("/c.lua").expect("slash-stripped load"), "slashed");
}

#[test]
fn a_missing_name_fails() {
    let source = FileSystemSource::new(map_tree(&[("x", "y")]));
    assert_eq!(
        source.load("scripts/missing.lua"),
        Err(ScriptError::Failed(
            "fs source: read \"scripts/missing.lua\": not found".to_string()
        ))
    );
}

#[test]
fn an_empty_source_list_is_rejected() {
    assert!(matches!(
        MultiSource::<()>::new(MultiStrategy::Fallback, vec![]),
        Err(ScriptError::Failed(msg)) if msg.contains("at least one source")
    ));
}
