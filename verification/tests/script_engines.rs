use rushwind::script::cel::{self, CelData, CelEngine, CelKey, Compiled, Evaluation};
use rushwind::script::engine::{
    Quota, QuotaController, RuntimeHookRegistrar, SandboxConfigurator, ScriptLoader, ScriptWatcher,
};
use rushwind::script::error::ScriptError;
use rushwind::script::factory::{list_factories, FactoryRegistry};
use rushwind::script::javascript::{
    self, Command, JsEngine, Reply, Report, Task, Worker, WorkerStep,
};
use rushwind::script::json_tree::{from_json, to_json, Json};
use rushwind::script::lifecycle::Lifecycle;
use rushwind::script::lua::{
    self, std_lib_for, Callee, LibSet, LuaData, LuaEngine, LuaKey, Meter, OpenLibs,
};
use rushwind::script::starlark::{
    self, clamp_int, script_ran, CallOutcome, Script, ScriptStep, StarData, StarlarkEngine,
};
use rushwind::script::value::{copy_bytes, finite, flatten_module, ScriptValue};
use rushwind::script::wasm::{self, WasmEngine};
use rushwind::string_map::StringMap;

type Js = JsEngine<u8, u8, u8>;
type PlainLua = LuaEngine<u8, u8, u8, u8>;
type Cel = CelEngine<u8, u8, &'static str, &'static str>;
type Star = StarlarkEngine<u8, u8, &'static str>;
type Wasm = WasmEngine<u8>;

fn text(s: &str) -> ScriptValue {
    ScriptValue::Text(s.to_string())
}

fn float(v: f64) -> ScriptValue {
    ScriptValue::Float(v.to_bits())
}

fn failed<T>(r: Result<T, ScriptError>) -> String {
    match r {
        Ok(_) => panic!("it succeeded"),
        Err(e) => e.message(),
    }
}

fn message(reason: &str) -> String {
    ScriptError::Failed(reason.to_string()).message()
}

fn entries(pairs: Vec<(&str, ScriptValue)>) -> ScriptValue {
    ScriptValue::Entries(pairs.into_iter().map(|(k, v)| (k.to_string(), v)).collect())
}

// Lifecycles.

#[test]
fn lifecycles_refuse_work_before_init() {
    let mut life: Lifecycle<u8, u8> = Lifecycle::new("test engine");
    assert_eq!(failed(life.guard()), message("test engine: not initialized"));
    assert_eq!(
        life.last_error().unwrap().message(),
        message("test engine: not initialized")
    );
    assert!(life.begin_init().is_ok());
    assert_eq!(
        failed(life.begin_init()),
        message("test engine: already initialized")
    );
    assert_eq!(
        failed(life.guard_source()),
        message("test engine: no source bound")
    );
    life.set_source(Some(7));
    assert!(life.guard_source().is_ok());
    assert_eq!(*life.get_source(), Some(7));
    life.clear_error();
    assert!(life.last_error().is_none());
}

#[test]
fn values_are_equal_where_they_hold_the_same() {
    let one = || ("a", ScriptValue::Int(1));
    let two = || ("b", ScriptValue::Array(vec![text("x"), ScriptValue::Null]));
    assert_eq!(entries(vec![one(), two()]), entries(vec![two(), one()]));
    assert_ne!(entries(vec![one()]), entries(vec![one(), two()]));
    assert_ne!(
        entries(vec![one(), two()]),
        entries(vec![one(), ("b", ScriptValue::Null)])
    );
    assert_ne!(entries(vec![one()]), entries(vec![("c", ScriptValue::Int(1))]));
    assert_eq!(ScriptValue::Float(0.0f64.to_bits()), ScriptValue::Float((-0.0f64).to_bits()));
    let undefined = || ScriptValue::Float(f64::NAN.to_bits());
    assert_ne!(undefined(), undefined());
    assert_ne!(
        ScriptValue::Array(vec![undefined()]),
        ScriptValue::Array(vec![undefined()])
    );
    let endless = || ScriptValue::Float(f64::INFINITY.to_bits());
    assert_eq!(endless(), endless());
    assert_ne!(ScriptValue::Int(1), ScriptValue::UInt(1));
    assert_eq!(ScriptValue::Bytes(vec![1, 2]), ScriptValue::Bytes(vec![1, 2]));
    assert_ne!(ScriptValue::Bytes(vec![1, 2]), ScriptValue::Bytes(vec![1, 3]));
}

#[test]
fn lifecycles_keep_watches_until_they_close() {
    let mut life: Lifecycle<u8, u8> = Lifecycle::new("test engine");
    life.begin_init().unwrap();
    assert!(life.watch_opened(Ok(()), true).is_ok());
    assert_eq!(life.keep_watch("a", 0), None);
    assert_eq!(life.keep_watch("a", 1), Some(0));
    assert_eq!(life.keep_watch("b", 2), None);
    assert_eq!(life.stop_watch("a"), Some(1));
    assert_eq!(life.stop_watch("a"), None);
    assert_eq!(
        failed(life.watch_opened(Ok(()), false)),
        message("test engine: engine handle unavailable")
    );
    assert_eq!(life.close(), vec![2]);
    assert!(!life.is_initialized());
    assert!(life.last_error().is_none());
}

#[test]
fn lifecycles_record_what_went_wrong() {
    let mut life: Lifecycle<u8, u8> = Lifecycle::new("test engine");
    let refused: Result<u8, ScriptError> = life.fetched(Err(ScriptError::QuotaExceeded));
    assert!(refused.is_err());
    assert_eq!(life.last_error(), Some(ScriptError::QuotaExceeded));
    assert_eq!(life.settle(": ", Ok(3)).unwrap(), 3);
    assert!(life.last_error().is_none());
    let refused: Result<u8, ScriptError> = life.settle(": ", Err("boom".to_string()));
    assert_eq!(failed(refused), message("test engine: boom"));
}

// Values.

#[test]
fn values_copy_deeply() {
    let value = entries(vec![
        ("a", ScriptValue::Array(vec![ScriptValue::Int(1), float(2.5)])),
        ("b", ScriptValue::Bytes(vec![0, 255])),
    ]);
    assert_eq!(value.clone(), value);
    assert_eq!(copy_bytes(&vec![1, 2]), vec![1, 2]);
    assert!(finite(1.5f64.to_bits()));
    assert!(!finite(f64::NAN.to_bits()));
    assert!(!finite(f64::INFINITY.to_bits()));
}

#[test]
fn modules_flatten_under_their_name() {
    let mut globals = StringMap::new();
    globals.insert("m_a".to_string(), ScriptValue::Null);
    let members = vec![
        ("a".to_string(), ScriptValue::Int(1)),
        ("b".to_string(), text("x")),
    ];
    flatten_module(&mut globals, "m", &members);
    assert_eq!(globals.len(), 2);
    assert_eq!(globals.get("m_a"), Some(&ScriptValue::Int(1)));
    assert_eq!(globals.get("m_b"), Some(&text("x")));
}

#[test]
fn json_trees_read_back() {
    let value = entries(vec![
        ("n", ScriptValue::Null),
        ("i", ScriptValue::Int(-3)),
        ("u", ScriptValue::UInt(u64::MAX)),
        ("f", float(0.5)),
        ("l", ScriptValue::Array(vec![ScriptValue::Bool(true), text("t")])),
    ]);
    assert_eq!(from_json(&to_json(&value)), value);
    assert_eq!(from_json(&to_json(&ScriptValue::UInt(3))), ScriptValue::Int(3));
    assert_eq!(to_json(&float(f64::NAN)), Json::Natural(0));
    assert_eq!(
        to_json(&ScriptValue::Bytes(vec![7])),
        Json::List(vec![Json::Natural(7)])
    );
}

// JavaScript.

fn run_all(
    worker: &mut Worker,
    codes: &[&str],
    results: Vec<Result<Option<Json>, String>>,
) -> Reply {
    let codes = codes.iter().map(|c| c.to_string()).collect();
    let mut step = worker.command(Command::EvalAll(codes));
    for result in results {
        match step {
            WorkerStep::Run(Task::Eval(_)) => step = worker.report(Report::Evaluated(result)),
            _ => panic!("no program was run"),
        }
    }
    match step {
        WorkerStep::Answer(reply) => reply,
        _ => panic!("no answer"),
    }
}

#[test]
fn execution_returns_the_result_array() {
    let mut worker = Worker::new();
    let reply = run_all(
        &mut worker,
        &["1", "2"],
        vec![Ok(Some(Json::Natural(1))), Ok(None)],
    );
    let Reply::Values(Ok(values)) = reply else {
        panic!("no values");
    };
    assert_eq!(values, vec![ScriptValue::Int(1), ScriptValue::Null]);
    assert!(matches!(worker, Worker::Idle));
}

#[test]
fn the_first_failing_program_ends_the_run() {
    let mut worker = Worker::new();
    let reply = run_all(
        &mut worker,
        &["1", "x", "3"],
        vec![Ok(Some(Json::Natural(1))), Err("ReferenceError".to_string())],
    );
    let Reply::Values(values) = reply else {
        panic!("no values");
    };
    assert_eq!(failed(values), message("javascript engine: ReferenceError"));
}

#[test]
fn workers_define_read_and_call() {
    let mut worker = Worker::new();
    let WorkerStep::Run(Task::Define { name, value }) = worker.command(Command::SetGlobal {
        name: "g".to_string(),
        value: ScriptValue::UInt(4),
    }) else {
        panic!("nothing was defined");
    };
    assert_eq!((name.as_str(), value), ("g", Json::Natural(4)));
    let WorkerStep::Answer(Reply::Done(Ok(()))) = worker.report(Report::Defined(Ok(()))) else {
        panic!("no answer");
    };
    let WorkerStep::Run(Task::Read(_)) = worker.command(Command::GetGlobal("g".to_string())) else {
        panic!("nothing was read");
    };
    let WorkerStep::Answer(Reply::Value(Ok(value))) =
        worker.report(Report::Found(Ok(Some(Json::Natural(4)))))
    else {
        panic!("no answer");
    };
    assert_eq!(value, ScriptValue::Int(4));
    let WorkerStep::Run(Task::Read(_)) = worker.command(Command::GetGlobal("h".to_string())) else {
        panic!("nothing was read");
    };
    let WorkerStep::Answer(Reply::Value(missing)) = worker.report(Report::Undefined) else {
        panic!("no answer");
    };
    assert_eq!(failed(missing), message("javascript engine: global not found: h"));
    let call = Command::Call {
        name: "f".to_string(),
        args: vec![text("a")],
    };
    let WorkerStep::Run(Task::Call { args, .. }) = worker.command(call) else {
        panic!("nothing was called");
    };
    assert_eq!(args, vec![Json::Text("a".to_string())]);
    let WorkerStep::Answer(Reply::Value(refused)) = worker.report(Report::NotCallable) else {
        panic!("no answer");
    };
    assert_eq!(failed(refused), message("javascript engine: not callable: f"));
    assert!(matches!(worker.command(Command::Drop), WorkerStep::Stop));
}

fn ready_js() -> Js {
    let mut engine = Js::new();
    engine.begin_init().unwrap();
    engine.end_init(true).unwrap();
    engine
}

#[test]
fn javascript_hooks_wait_for_the_runtime() {
    let mut engine = Js::new();
    assert_eq!(engine.add_runtime_hook(1), None);
    assert_eq!(engine.begin_init().unwrap(), vec![1]);
    assert_eq!(engine.add_runtime_hook(2), Some(2));
    assert_eq!(
        failed(engine.end_init(false)),
        message("javascript engine: runtime hook failed")
    );
}

#[test]
fn javascript_runs_are_measured_after_the_fact() {
    let mut engine = ready_js();
    assert_eq!(
        failed(engine.begin_execute()),
        message("javascript engine: no program loaded")
    );
    engine.load_string("1").unwrap();
    let Command::EvalAll(codes) = engine.begin_execute().unwrap() else {
        panic!("another command");
    };
    assert_eq!(codes, vec!["1".to_string()]);
    engine.load_string("2").unwrap();
    let Command::EvalOne(code) = engine.begin_execute_sync().unwrap() else {
        panic!("another command");
    };
    assert_eq!(code, "2");
    engine.set_quota(Quota {
        timeout: Some(100),
        max_instructions: None,
    });
    let quota = engine.quota;
    assert!(engine.sent(true).is_ok());
    assert_eq!(engine.settle_run(Some(Ok(1)), &quota, 99).unwrap(), 1);
    let late = engine.settle_run(Some(Ok(1)), &quota, 100);
    assert_eq!(late, Err(ScriptError::QuotaExceeded));
    let unreachable = message("javascript engine: worker unavailable");
    assert_eq!(failed(engine.sent(false)), unreachable);
    let lost: Option<Result<u8, ScriptError>> = None;
    assert_eq!(failed(engine.settle(lost)), unreachable);
    assert_eq!(
        failed(engine.register_function()),
        message(
            "javascript engine: host functions are unavailable under the no-unsafe policy"
        )
    );
    engine.close();
    assert_eq!(
        failed(engine.load_string("1")),
        message("javascript engine: not initialized")
    );
}

// Lua.

#[test]
fn lua_libraries_are_chosen_by_name() {
    let names = |list: &[&str]| list.iter().map(|s| s.to_string()).collect::<Vec<String>>();
    assert_eq!(std_lib_for(&names(&[])), OpenLibs::AllSafe);
    let none = LibSet {
        coroutine: false,
        table: false,
        io: false,
        os: false,
        string: false,
        math: false,
        package: false,
    };
    assert_eq!(
        std_lib_for(&names(&["base", "channel", "debug"])),
        OpenLibs::Only(none)
    );
    assert_eq!(
        std_lib_for(&names(&["string", "math", "string"])),
        OpenLibs::Only(LibSet {
            string: true,
            math: true,
            ..none
        })
    );
}

#[test]
fn the_sandbox_allow_list_shrinks_the_libraries() {
    let mut engine = PlainLua::new();
    engine.set_open_libs(&["os"]);
    let OpenLibs::Only(libs) = engine.begin_init().unwrap() else {
        panic!("all libraries were opened");
    };
    assert!(libs.os && !libs.io && !libs.table);
}

#[test]
fn lua_values_read_back_but_for_arrays() {
    let value = entries(vec![
        ("b", ScriptValue::Bool(true)),
        ("i", ScriptValue::Int(-1)),
        ("f", float(1.5)),
        ("t", text("t")),
        ("m", entries(vec![("x", ScriptValue::Int(1))])),
        ("raw", ScriptValue::Bytes(vec![0xff])),
    ]);
    assert_eq!(lua::from_lua(&lua::to_lua(&value)), value);
    assert_eq!(
        lua::to_lua(&ScriptValue::UInt(u64::MAX)),
        LuaData::Int(-1)
    );
    let array = ScriptValue::Array(vec![ScriptValue::Int(5)]);
    assert_eq!(
        lua::to_lua(&array),
        LuaData::Table(vec![(LuaKey::Index(1), LuaData::Int(5))])
    );
    assert_eq!(lua::from_lua(&lua::to_lua(&array)), entries(vec![]));
    assert_eq!(lua::from_lua(&LuaData::Opaque), ScriptValue::Null);
    assert_eq!(
        lua::to_lua(&ScriptValue::Bytes(b"abc".to_vec())),
        LuaData::Text(b"abc".to_vec())
    );
    assert_eq!(lua::from_lua(&LuaData::Text(b"abc".to_vec())), text("abc"));
}

#[test]
fn an_instruction_budget_interrupts_a_runaway_script() {
    let mut meter = Meter::new(3);
    assert!(!meter.tick());
    assert!(!meter.tick());
    assert!(meter.tick());
    assert!(meter.tick());
    let mut engine = PlainLua::new();
    assert!(engine.fresh_run().meter.is_none());
    let quota = Quota {
        timeout: None,
        max_instructions: Some(3),
    };
    engine.set_quota(quota);
    engine.begin_init().unwrap();
    engine.runtime_made(Ok(())).unwrap();
    engine.end_init(true).unwrap();
    engine.compiled(Ok(1)).unwrap();
    for _ in 0..2 {
        let run = engine.begin_execute().unwrap();
        assert_eq!(run.quota, quota);
        let mut meter = run.meter.expect("bounded");
        assert!(!meter.tick());
        assert!(!meter.tick());
        assert!(meter.tick());
    }
    let tripped: Result<(), ScriptError> =
        engine.settle_run(Err("stopped".to_string()), true, &quota, 0);
    assert_eq!(tripped, Err(ScriptError::QuotaExceeded));
}

#[test]
fn lua_chunks_are_compiled_and_kept_in_order() {
    let runtime = mlua::Lua::new();
    let mut engine: LuaEngine<u8, u8, u8, mlua::Function> = LuaEngine::new();
    assert_eq!(
        failed(engine.load_string(&runtime, "return 1")),
        message("lua engine: not initialized")
    );
    assert_eq!(engine.chunks.len(), 0);
    engine.begin_init().unwrap();
    engine.runtime_made(Ok(())).unwrap();
    engine.end_init(true).unwrap();
    engine.load_string(&runtime, "return 1").unwrap();
    let refused = failed(engine.load_string(&runtime, "return ="));
    assert!(refused.starts_with(&message("lua engine: compile failed: ")));
    assert!(engine.life.last_error().is_some());
    engine.load_string(&runtime, "return 2").unwrap();
    assert!(engine.life.last_error().is_none());
    let given: Vec<i64> = engine.chunks.iter().map(|chunk| chunk.call(()).unwrap()).collect();
    assert_eq!(given, vec![1, 2]);
}

#[test]
fn lua_engines_fail_as_their_runtime_does() {
    let mut engine = PlainLua::new();
    engine.begin_init().unwrap();
    assert_eq!(
        failed(engine.runtime_made(Err("memory".to_string()))),
        message("lua engine: init failed: memory")
    );
    assert!(!engine.life.is_initialized());
    engine.begin_init().unwrap();
    engine.runtime_made(Ok(())).unwrap();
    engine.end_init(true).unwrap();
    assert_eq!(
        failed(engine.begin_execute()),
        message("lua engine: no chunk loaded")
    );
    assert_eq!(
        failed(engine.compiled(Err("syntax".to_string()))),
        message("lua engine: compile failed: syntax")
    );
    engine.compiled(Ok(1)).unwrap();
    engine.compiled(Ok(2)).unwrap();
    assert!(engine.begin_execute().is_ok());
    assert!(matches!(engine.begin_execute_last(), Ok((1, _))));
    assert_eq!(
        engine.found_global("g", Ok(LuaData::Int(5))).unwrap(),
        ScriptValue::Int(5)
    );
    assert_eq!(
        failed(engine.found_global("g", Ok(LuaData::Nil))),
        message("lua engine: global not found: g")
    );
    assert_eq!(
        failed(engine.found_global("g", Err("index".to_string()))),
        message("lua engine: index")
    );
    assert_eq!(
        failed(engine.found_callee("f", Callee::Other)),
        message("lua engine: not callable: f")
    );
    assert!(engine.found_callee("f", Callee::Function).is_ok());
    assert_eq!(
        failed(engine.register_module()),
        message("lua engine: module must be a native module")
    );
}

// CEL.

fn ready_cel() -> Cel {
    let mut engine = Cel::new();
    engine.init().unwrap();
    engine
}

#[test]
fn cel_values_read_back() {
    let value = entries(vec![
        ("u", ScriptValue::UInt(3)),
        ("b", ScriptValue::Bytes(vec![1])),
        ("l", ScriptValue::Array(vec![ScriptValue::Int(1), float(2.0)])),
    ]);
    assert_eq!(cel::from_cel(&cel::to_cel(&value).unwrap()), value);
    let hidden = ScriptValue::Array(vec![ScriptValue::Null]);
    assert_eq!(
        failed(cel::to_cel(&hidden)),
        message("cel engine: null has no CEL rendering")
    );
    let mixed = CelData::Table(vec![
        (CelKey::Other, CelData::Int(1)),
        (CelKey::Text("k".to_string()), CelData::Opaque),
    ]);
    assert_eq!(
        cel::from_cel(&mixed),
        entries(vec![("k", ScriptValue::Null)])
    );
}

#[test]
fn globals_reach_the_expressions() {
    let mut engine = ready_cel();
    engine.register_global("x", ScriptValue::Int(4)).unwrap();
    engine.register_global("n", ScriptValue::Null).unwrap();
    assert_eq!(
        failed(engine.begin_execute()),
        message("cel engine: no expression loaded")
    );
    engine.compiled("e", Compiled::Program("x")).unwrap();
    let globals = engine.begin_execute().unwrap();
    assert_eq!(globals, vec![("x".to_string(), CelData::Int(4))]);
    assert_eq!(engine.get_global("n").unwrap(), ScriptValue::Null);
    assert_eq!(
        failed(engine.get_global("y")),
        message("cel engine: global not found: y")
    );
}

#[test]
fn the_last_expression_answers() {
    let mut engine = ready_cel();
    engine.compiled("a", Compiled::Program("1")).unwrap();
    engine.compiled("b", Compiled::Program("2")).unwrap();
    assert!(matches!(
        engine.evaluated(0, Ok(CelData::Int(1))),
        Evaluation::Next
    ));
    let Evaluation::Done(value) = engine.evaluated(1, Ok(CelData::Int(2))) else {
        panic!("no answer");
    };
    assert_eq!(value, ScriptValue::Int(2));
    let (last, _) = engine.begin_execute_last().unwrap();
    assert_eq!(last, 1);
    let Evaluation::Failed(error) = engine.evaluated(1, Err("undeclared".to_string())) else {
        panic!("no failure");
    };
    assert_eq!(
        error.message(),
        message("cel engine: evaluation failed: b: undeclared")
    );
}

#[test]
fn a_broken_expression_fails_to_compile() {
    let mut engine = ready_cel();
    assert_eq!(
        failed(engine.compiled("e", Compiled::Refused("syntax".to_string()))),
        message("cel engine: compile failed: e: syntax")
    );
    assert_eq!(
        failed(engine.compiled("e", Compiled::Panicked)),
        message("cel engine: compile failed: e: parser panicked")
    );
}

#[test]
fn modules_flatten_into_prefixed_globals() {
    let mut engine = ready_cel();
    let module = entries(vec![("a", ScriptValue::Int(1)), ("b", text("x"))]);
    engine.register_module("m", &module).unwrap();
    assert_eq!(engine.get_global("m_a").unwrap(), ScriptValue::Int(1));
    assert_eq!(engine.get_global("m_b").unwrap(), text("x"));
    assert_eq!(
        failed(engine.register_module("m", &ScriptValue::Int(1))),
        message("cel engine: register_module expects a map")
    );
}

#[test]
fn an_unknown_function_errors() {
    let mut engine = ready_cel();
    engine.register_function("f", "host").unwrap();
    assert!(engine.begin_call("f").is_ok());
    assert_eq!(
        failed(engine.begin_call("g")),
        message("cel engine: function not found: g")
    );
    assert_eq!(engine.called(Ok(1)).unwrap(), 1);
    assert!(engine.life.last_error().is_none());
}

// Starlark.

fn ready_star() -> Star {
    let mut engine = Star::new();
    engine.init().unwrap();
    engine
}

fn script(name: &str) -> Script {
    Script {
        name: name.to_string(),
        code: format!("# {name}"),
    }
}

#[test]
fn starlark_integers_are_clamped() {
    assert_eq!(clamp_int(5_000_000_000), i32::MAX);
    assert_eq!(clamp_int(-5_000_000_000), i32::MIN);
    assert_eq!(clamp_int(-7), -7);
    assert_eq!(
        starlark::to_starlark(&ScriptValue::UInt(u64::MAX)),
        StarData::Int(i32::MAX)
    );
    assert_eq!(
        starlark::to_starlark(&ScriptValue::Bytes(vec![b'a', 0xff])),
        StarData::Text("a\u{fffd}".to_string())
    );
    assert_eq!(starlark::from_starlark(&None), ScriptValue::Null);
    assert_eq!(
        starlark::from_starlark(&Some(Json::Natural(2))),
        ScriptValue::Int(2)
    );
}

#[test]
fn starlark_scripts_run_in_order_up_to_a_failure() {
    let scripts = vec![script("a"), script("b")];
    assert!(matches!(script_ran(&scripts, 0, Ok(())), ScriptStep::Next(1)));
    assert!(matches!(script_ran(&scripts, 1, Ok(())), ScriptStep::AllRan));
    let ScriptStep::Failed { name, cause } = script_ran(&scripts, 1, Err("boom".to_string()))
    else {
        panic!("went on");
    };
    assert_eq!((name.as_str(), cause.as_str()), ("b", "boom"));
}

#[test]
fn queued_scripts_share_globals_in_one_run() {
    let mut engine = ready_star();
    assert_eq!(
        failed(engine.begin_execute()),
        message("starlark engine: no script loaded")
    );
    engine.load_string("a", "# a").unwrap();
    let adhoc = vec![script("b")];
    let names: Vec<String> = engine
        .scripts_with(&adhoc)
        .into_iter()
        .map(|s| s.name)
        .collect();
    assert_eq!(names, vec!["a".to_string(), "b".to_string()]);
    let failed_run = starlark::RunOutcome::ScriptFailed {
        name: "b".to_string(),
        cause: "boom".to_string(),
    };
    assert_eq!(
        failed(engine.settle_run(vec![script("b")], failed_run)),
        message("starlark engine: exec failed: b: boom")
    );
    assert_eq!(engine.scripts.len(), 1);
    assert_eq!(
        failed(engine.settle_run(vec![script("b")], starlark::RunOutcome::FreezeFailed)),
        message("starlark engine: freeze failed")
    );
    let value = engine.settle_run(adhoc, starlark::RunOutcome::Done("frozen"));
    assert_eq!(value.unwrap(), ScriptValue::Null);
    assert_eq!(engine.scripts.len(), 2);
    assert_eq!(engine.frozen, Some("frozen"));
}

#[test]
fn starlark_globals_come_from_the_scripts_first() {
    let mut engine = ready_star();
    engine.register_global("x", ScriptValue::Int(1)).unwrap();
    assert_eq!(engine.get_global("x", None).unwrap(), ScriptValue::Int(1));
    assert_eq!(
        engine.get_global("x", Some(Some(Json::Natural(2)))).unwrap(),
        ScriptValue::Int(2)
    );
    assert_eq!(engine.get_global("x", Some(None)).unwrap(), ScriptValue::Null);
    assert_eq!(
        failed(engine.get_global("y", None)),
        message("starlark engine: global not found: y")
    );
    assert_eq!(
        engine.predeclared(),
        vec![("x".to_string(), StarData::Int(1))]
    );
}

#[test]
fn module_registration_flattens_entries() {
    let mut engine = ready_star();
    let module = entries(vec![("k", text("v"))]);
    engine.register_module("m", &module).unwrap();
    assert_eq!(engine.get_global("m_k", None).unwrap(), text("v"));
    assert_eq!(
        failed(engine.register_module("m", &ScriptValue::Null)),
        message("starlark engine: module must be a map")
    );
}

#[test]
fn call_function_on_missing_names_fails() {
    let mut engine = ready_star();
    assert_eq!(
        failed(engine.settle_call("f", CallOutcome::NotFound)),
        message("starlark engine: function not found: f")
    );
    assert_eq!(
        failed(engine.settle_call("f", CallOutcome::Failed("boom".to_string()))),
        message("starlark engine: call failed: f: boom")
    );
    let returned = CallOutcome::Returned(Some(Json::Bool(true)));
    assert_eq!(
        engine.settle_call("f", returned).unwrap(),
        ScriptValue::Bool(true)
    );
}

#[test]
fn init_and_close_lifecycle() {
    let mut engine = Star::new();
    assert_eq!(
        failed(engine.close()),
        message("starlark engine: not initialized")
    );
    engine.init().unwrap();
    engine.register_global("x", ScriptValue::Int(1)).unwrap();
    assert!(engine.close().is_ok());
    engine.init().unwrap();
    assert!(engine.get_global("x", None).is_err());
}

// Wasm.

#[test]
fn a_start_module_runs_and_answers_null() {
    let mut engine = Wasm::new();
    engine.init().unwrap();
    engine
        .load_string("(module (func (export \"_start\")))")
        .unwrap();
    engine.begin_execute().unwrap();
    let module = engine.last_module().unwrap().clone();
    let mut store = wasmi::Store::new(module.engine(), ());
    let instance = wasmi::Instance::new(&mut store, &module, &[]).unwrap();
    let start = instance.get_typed_func::<(), ()>(&store, "_start").unwrap();
    start.call(&mut store, ()).unwrap();
    assert_eq!(
        engine.settle_run(wasm::RunOutcome::Finished).unwrap(),
        ScriptValue::Null
    );
}

#[test]
fn garbage_fails_to_compile() {
    let mut engine = Wasm::new();
    engine.init().unwrap();
    engine.runtime = None;
    assert_eq!(
        failed(engine.load_string("(module)")),
        message("wasm engine: not initialized")
    );
    engine.close();
    engine.init().unwrap();
    let refused = failed(engine.load_string("garbage"));
    assert!(refused.starts_with(&message("wasm engine: compile failed: ")));
    assert_eq!(
        failed(engine.begin_execute()),
        message("wasm engine: no module loaded")
    );
}

#[test]
fn wasm_runs_settle() {
    let mut engine = Wasm::new();
    assert_eq!(
        failed(engine.begin_execute()),
        message("wasm engine: not initialized")
    );
    engine.init().unwrap();
    assert_eq!(
        failed(engine.settle_run(wasm::RunOutcome::NotInstantiated("no".to_string()))),
        message("wasm engine: instantiation failed: no")
    );
    assert_eq!(
        failed(engine.settle_run(wasm::RunOutcome::Trapped("oob".to_string()))),
        message("wasm engine: _start trapped: oob")
    );
    for without in [
        wasm::RunOutcome::NoExport,
        wasm::RunOutcome::NoFunction,
        wasm::RunOutcome::OtherSignature,
    ] {
        assert_eq!(engine.settle_run(without).unwrap(), ScriptValue::Null);
    }
    let refused: Result<(), ScriptError> = engine.unsupported();
    assert_eq!(refused, Err(ScriptError::CapabilityNotSupported));
}

// Types and capabilities.

#[test]
fn engines_know_their_types_and_capabilities() {
    assert_eq!(Js::new().engine_type(), "javascript");
    assert_eq!(PlainLua::new().engine_type(), "lua");
    assert_eq!(Cel::new().engine_type(), "cel");
    assert_eq!(Star::new().engine_type(), "starlark");
    assert_eq!(Wasm::new().engine_type(), "wasm");
    assert!(Cel::new().capabilities().is_full());
    assert!(Star::new().capabilities().is_full());
    let js = Js::new().capabilities();
    assert!(js.is_full() && js.runtime_hooks && js.sync_executor && js.quota && !js.sandbox);
    let lua = PlainLua::new().capabilities();
    assert!(lua.is_full() && lua.sandbox && lua.runtime_hooks && lua.quota);
    let wasm = Wasm::new().capabilities();
    assert!(wasm.loader && wasm.executor && !wasm.globals && !wasm.is_full());
}

#[test]
fn engine_factories_register_under_their_names() {
    let mut registry: FactoryRegistry<u8> = FactoryRegistry::new();
    cel::register(&mut registry, 1);
    javascript::register(&mut registry, 2);
    lua::register(&mut registry, 3);
    starlark::register(&mut registry, 4);
    wasm::register(&mut registry, 5);
    lua::register(&mut registry, 6);
    let mut names = list_factories(&registry);
    names.sort();
    assert_eq!(names, vec!["cel", "javascript", "lua", "starlark", "wasm"]);
    assert!(wasm::factory::<u8>().is_ok());
    assert!(!Wasm::default().life.is_initialized());
    assert_eq!(PlainLua::default().engine_type(), PlainLua::new().engine_type());
}
