use rushwind::script::error::ScriptError;
use rushwind::script::pool::{
    pool_init_failed, Acquired, EnginePool, PoolBuild, Reinit, ReinitStep,
};
use rushwind::script::pool_autogrow::{check_type, AutoGrowEnginePool, GrowBuild, Growth};
use rushwind::script::source::cached::{CacheStep, CachedSource, WatchSign};
use rushwind::script::source::config::{bridge_error, config_loaded, ConfigFailure};
use rushwind::script::source::file::FileSource;
use rushwind::script::source::memory::MemSource;
use rushwind::script::source::multiple::{Gathering, LoadStep, MultiSource, MultiStrategy};
use rushwind::script::source::transform::{identity_transform, TransformSource};

fn failed<T>(r: Result<T, ScriptError>) -> String {
    match r {
        Ok(_) => panic!("it succeeded"),
        Err(e) => e.message(),
    }
}

fn message(reason: &str) -> String {
    ScriptError::Failed(reason.to_string()).message()
}

fn error(reason: &str) -> ScriptError {
    ScriptError::Failed(reason.to_string())
}

// Pools.

fn pool(engines: &[u8]) -> EnginePool<u8> {
    let mut build = PoolBuild::new(engines.len(), "t", true).ok().unwrap();
    for engine in engines {
        assert!(build.wants_more());
        build.add_engine(*engine);
    }
    assert!(!build.wants_more());
    build.finish()
}

#[test]
fn a_zero_size_pool_is_rejected() {
    let refused: Result<PoolBuild<u8>, ScriptError> = PoolBuild::new(0, "t", true);
    assert_eq!(
        failed(refused),
        message("engine pool: pool size must be >= 1")
    );
}

#[test]
fn an_unregistered_type_is_rejected() {
    let refused: Result<PoolBuild<u8>, ScriptError> = PoolBuild::new(1, "a\"b", false);
    assert_eq!(
        failed(refused),
        message("script engine factory \"a\\\"b\" not registered")
    );
}

#[test]
fn an_init_failure_closes_the_engine_and_aborts_the_pool() {
    let mut build: PoolBuild<u8> = PoolBuild::new(3, "t", true).ok().unwrap();
    build.add_engine(1);
    let failure = build.init_failed(2, &error("boom"));
    let mut close = failure.close;
    close.sort();
    assert_eq!(close, vec![1, 2]);
    let cause = error("boom").message();
    let text = format!("engine pool: init failed: {cause}");
    assert_eq!(failure.error.message(), message(&text));
    assert_eq!(pool_init_failed(&error("boom")).message(), message(&text));
    let mut build: PoolBuild<u8> = PoolBuild::new(3, "t", true).ok().unwrap();
    build.add_engine(1);
    let failure = build.factory_failed(&error("boom"));
    assert_eq!(failure.close, vec![1]);
    let text = format!("engine pool: factory failed: {cause}");
    assert_eq!(failure.error.message(), message(&text));
}

#[test]
fn acquire_blocks_until_a_release() {
    let mut pool = pool(&[1, 2]);
    assert_eq!(pool.capacity(), 2);
    assert!(matches!(pool.acquire(), Acquired::Lent(1)));
    assert!(matches!(pool.acquire(), Acquired::Lent(2)));
    assert!(matches!(pool.acquire(), Acquired::Wait));
    assert_eq!(pool.release(2), None);
    assert!(matches!(pool.acquire(), Acquired::Lent(2)));
}

#[test]
fn a_closed_pool_fails_acquire_and_closes_releases() {
    let mut pool = pool(&[1, 2]);
    assert!(matches!(pool.acquire(), Acquired::Lent(1)));
    assert_eq!(pool.close(), vec![2]);
    assert!(pool.is_closed());
    assert_eq!(pool.close(), Vec::<u8>::new());
    let Acquired::Refused(refused) = pool.acquire() else {
        panic!("an engine was lent");
    };
    assert_eq!(refused.message(), message("engine pool closed"));
    assert_eq!(pool.release(1), Some(1));
}

#[test]
fn init_all_reinitializes_every_engine() {
    let mut reinit: Reinit<u8> = Reinit::new(2);
    for engine in [1, 2] {
        assert_eq!(reinit.next(), ReinitStep::Acquire);
        reinit = reinit.acquired(Ok(engine)).ok().unwrap();
    }
    for index in [0, 1] {
        assert_eq!(reinit.next(), ReinitStep::Init(index));
        assert_eq!(usize::from(*reinit.engine(index)), index + 1);
        reinit = reinit.initialised(Ok(())).ok().unwrap();
    }
    assert_eq!(reinit.next(), ReinitStep::Release);
    assert_eq!(reinit.finish(), vec![1, 2]);
}

#[test]
fn a_failed_reinitialization_closes_what_was_borrowed() {
    let one = || {
        let reinit: Reinit<u8> = Reinit::new(1);
        reinit.acquired(Ok(1)).ok().unwrap()
    };
    let failure = one().initialised(Err(error("boom"))).err().unwrap();
    assert_eq!(failure.close, vec![1]);
    assert_eq!(
        failure.error.message(),
        pool_init_failed(&error("boom")).message()
    );
    let reinit: Reinit<u8> = Reinit::new(2);
    let reinit = reinit.acquired(Ok(1)).ok().unwrap();
    let failure = reinit.acquired(Err(error("closed"))).err().unwrap();
    assert_eq!(failure.close, vec![1]);
    assert_eq!(failure.error, error("closed"));
}

fn growing(initial: &[u8], max: usize) -> AutoGrowEnginePool<u8> {
    let mut build = GrowBuild::new(initial.len(), max).ok().unwrap();
    for engine in initial {
        build.add_engine(*engine);
    }
    build.finish()
}

#[test]
fn invalid_sizes_are_rejected() {
    for (initial, max) in [(0, 0), (3, 2)] {
        let refused: Result<GrowBuild<u8>, ScriptError> = GrowBuild::new(initial, max);
        let text = format!("script engine: invalid sizes: initial={initial} max={max}");
        assert_eq!(failed(refused), message(&text));
    }
}

#[test]
fn an_empty_type_is_rejected() {
    assert_eq!(failed(check_type("")), message("engine type cannot be empty"));
    assert!(check_type("t").is_ok());
}

#[test]
fn an_eager_factory_failure_rolls_back() {
    let mut build: GrowBuild<u8> = GrowBuild::new(2, 2).ok().unwrap();
    build.add_engine(1);
    let failure = build.factory_failed(&error("boom"));
    assert_eq!(failure.close, vec![1]);
    let cause = error("boom").message();
    let text = format!("script engine: factory failed: {cause}");
    assert_eq!(failure.error.message(), message(&text));
}

#[test]
fn a_growing_factory_failure_leaves_the_capacity_usable() {
    let mut pool = growing(&[], 1);
    assert!(matches!(pool.acquire(), Growth::Make));
    assert!(matches!(pool.acquire(), Growth::Wait));
    assert!(pool.made(Err(error("boom"))).is_err());
    assert!(matches!(pool.acquire(), Growth::Make));
    assert_eq!(pool.made(Ok(7)).unwrap(), 7);
    assert_eq!(pool.live(), 1);
}

#[test]
fn the_cap_blocks_until_a_release() {
    let mut pool = growing(&[1], 2);
    assert!(matches!(pool.acquire(), Growth::Lent(1)));
    assert!(matches!(pool.acquire(), Growth::Make));
    pool.made(Ok(2)).unwrap();
    assert!(matches!(pool.acquire(), Growth::Wait));
    assert_eq!(pool.release(2), None);
    assert!(matches!(pool.acquire(), Growth::Lent(2)));
}

#[test]
fn a_release_into_a_closed_pool_closes_the_engine() {
    let mut pool = growing(&[1, 2], 2);
    assert!(matches!(pool.acquire(), Growth::Lent(1)));
    assert_eq!(pool.close(), vec![2]);
    assert_eq!(pool.release(1), Some(1));
    let Growth::Refused(refused) = pool.acquire() else {
        panic!("an engine was lent");
    };
    assert_eq!(
        refused.message(),
        message("script engine: engine pool closed")
    );
}

// Memory.

#[test]
fn set_then_load_round_trips() {
    let mut source: MemSource<u8> = MemSource::new();
    assert_eq!(
        failed(source.load("k")),
        message("mem source: key \"k\" not found")
    );
    assert!(!source.set("k", "one"));
    assert_eq!(source.load("k").unwrap(), "one");
    source.set("k", "two");
    assert_eq!(source.load("k").unwrap(), "two");
    source.delete("k");
    assert!(source.load("k").is_err());
}

#[test]
fn a_set_signals_the_watch_stream() {
    let mut source: MemSource<u8> = MemSource::new();
    source.watch("k", 1);
    source.watch("k", 2);
    assert_eq!(source.signal("k"), Some(&1));
    assert!(source.set("k", "one"));
    assert!(source.delete("k"));
    assert!(!source.set("other", "one"));
}

// Files.

#[test]
fn a_missing_file_fails() {
    let source = FileSource::new();
    assert_eq!(
        failed(source.file_read("p", Err("no such file".to_string()))),
        message("file source: read \"p\": no such file")
    );
    assert_eq!(source.file_read("p", Ok("code".to_string())).unwrap(), "code");
    assert_eq!(
        failed(source.watch_begins("p", Err("no such file".to_string()))),
        message("file source: stat \"p\": no such file")
    );
}

#[test]
fn a_watched_file_modification_signals() {
    let mut poll = FileSource::new().watch_begins("p", Ok(5)).ok().unwrap();
    assert!(!poll.observe(Some(5)));
    assert!(!poll.observe(None));
    assert!(!poll.observe(Some(4)));
    assert!(poll.observe(Some(6)));
    assert!(!poll.observe(Some(6)));
}

// Several sources.

#[test]
fn fallback_joins_when_every_source_fails() {
    let mut gathering = Gathering::new();
    assert_eq!(gathering.took(Err(error("a"))), None);
    assert_eq!(gathering.took(Err(error("b"))), None);
    let a = error("a").message();
    let b = error("b").message();
    let text = format!("multi source(fallback): all sources failed for \"k\": {a}; {b}");
    assert_eq!(
        gathering.give_up(MultiStrategy::Fallback, "k").message(),
        message(&text)
    );
    let text = format!("multi source(first-ok): all sources failed for \"k\": {a}; {b}");
    assert_eq!(
        gathering.give_up(MultiStrategy::FirstOk, "k").message(),
        message(&text)
    );
    assert_eq!(
        gathering.took(Ok("code".to_string())),
        Some("code".to_string())
    );
}

fn over<S>(strategy: MultiStrategy, sources: Vec<S>) -> MultiSource<S> {
    MultiSource::new(strategy, sources).ok().expect("sources")
}

#[test]
fn fallback_loads_ask_in_order_and_stop_at_the_first_success() {
    let (mut load, step) = over(MultiStrategy::Fallback, vec![1, 2, 3]).begin_load();
    assert!(matches!(step, LoadStep::Ask(0, 1)));
    assert!(matches!(load.answered("k", Err(error("a"))), LoadStep::Ask(1, 2)));
    let LoadStep::Done(Ok(code)) = load.answered("k", Ok("code".to_string())) else {
        panic!("the load goes on");
    };
    assert_eq!(code, "code");
}

#[test]
fn fallback_loads_fail_once_all_have_failed() {
    let (mut load, _) = over(MultiStrategy::Fallback, vec![1, 2]).begin_load();
    assert!(matches!(load.answered("k", Err(error("a"))), LoadStep::Ask(1, 2)));
    let LoadStep::Done(Err(failure)) = load.answered("k", Err(error("b"))) else {
        panic!("the load goes on");
    };
    let a = error("a").message();
    let b = error("b").message();
    let text = format!("multi source(fallback): all sources failed for \"k\": {a}; {b}");
    assert_eq!(failure.message(), message(&text));
}

#[test]
fn first_ok_loads_ask_all_and_take_the_success_that_comes_first() {
    let sources = over(MultiStrategy::FirstOk, vec![1, 2, 3]);
    let (mut load, step) = sources.begin_load();
    assert!(matches!(step, LoadStep::Ask(0, 3)));
    assert!(matches!(load.answered("k", Err(error("c"))), LoadStep::Wait));
    let LoadStep::Done(Ok(code)) = load.answered("k", Ok("b".to_string())) else {
        panic!("the load goes on");
    };
    assert_eq!(code, "b");
    let (mut load, _) = sources.begin_load();
    for _ in 0..2 {
        assert!(matches!(load.answered("k", Err(error("a"))), LoadStep::Wait));
    }
    assert!(matches!(
        load.answered("k", Err(error("a"))),
        LoadStep::Done(Err(_))
    ));
}

#[test]
fn watch_fails_when_no_sub_source_can_watch() {
    let mut gathering = Gathering::new();
    let cannot: Result<u8, ScriptError> = Err(ScriptError::CapabilityNotSupported);
    assert_eq!(gathering.took_watch(0, cannot), None);
    assert_eq!(
        gathering.give_up_watch().message(),
        message("multi source: none of the sub-sources implements watching")
    );
    let broken: Result<u8, ScriptError> = Err(error("boom"));
    assert_eq!(gathering.took_watch(1, broken), None);
    let cause = error("boom").message();
    let text = format!("multi source: no watcher available: source[1]: {cause}");
    assert_eq!(gathering.give_up_watch().message(), message(&text));
    assert_eq!(gathering.took_watch(2, Ok(9)), Some(9));
}

// Transforms.

type Transform = fn(&str, String) -> Result<String, ScriptError>;

fn upper(_key: &str, raw: String) -> Result<String, ScriptError> {
    Ok(raw.to_uppercase())
}

fn keyed(key: &str, raw: String) -> Result<String, ScriptError> {
    Ok(format!("{key}:{raw}"))
}

fn broken(_key: &str, _raw: String) -> Result<String, ScriptError> {
    Err(ScriptError::Failed("boom".to_string()))
}

#[test]
fn chained_transforms_apply_in_registration_order() {
    let refused: Result<TransformSource<u8, Transform>, ScriptError> =
        TransformSource::new(1, Vec::new());
    assert_eq!(
        failed(refused),
        message("transform source: at least one transform function is required")
    );
    let source = TransformSource::new(1, vec![upper as Transform])
        .ok()
        .unwrap()
        .then(keyed as Transform)
        .ok()
        .unwrap();
    assert_eq!(*source.inner(), 1);
    assert_eq!(source.loaded("k", Ok("a".to_string())).unwrap(), "k:A");
    assert_eq!(identity_transform("k", "a".to_string()).unwrap(), "a");
    let idle = source.then(identity_transform as Transform).ok().unwrap();
    assert_eq!(idle.loaded("k", Ok("a".to_string())).unwrap(), "k:A");
    let late = TransformSource::new(1, vec![broken as Transform])
        .ok()
        .unwrap()
        .then(keyed as Transform)
        .ok()
        .unwrap();
    let cause = error("boom").message();
    let reason = format!("transform source: transform[0] for \"k\": {cause}");
    assert_eq!(failed(late.loaded("k", Ok("a".to_string()))), message(&reason));
}

#[test]
fn a_failing_transform_fails_the_load_with_its_index() {
    let source = TransformSource::new(1, vec![upper as Transform, broken as Transform])
        .ok()
        .unwrap();
    let cause = error("boom").message();
    let text = format!("transform source: transform[1] for \"k\": {cause}");
    assert_eq!(failed(source.loaded("k", Ok("a".to_string()))), message(&text));
    let text = format!("transform source: load \"k\": {cause}");
    assert_eq!(failed(source.loaded("k", Err(error("boom")))), message(&text));
    let cannot: Result<u8, ScriptError> = Err(ScriptError::CapabilityNotSupported);
    assert_eq!(
        failed(source.watched(cannot)),
        message("transform source: inner source does not implement watching")
    );
    assert_eq!(source.watched(Ok(3)).unwrap(), 3);
}

// Caches.

fn fill(cache: &mut CachedSource, key: &str, code: &str, now: u128) -> bool {
    let CacheStep::Fetch { first } = cache.begin_load(key, WatchSign::Quiet, now) else {
        panic!("it was cached");
    };
    let answer = cache.fetched(key, Ok(code.to_string()), now);
    assert_eq!(answer.unwrap(), code);
    first
}

fn hit(cache: &mut CachedSource, key: &str, sign: WatchSign, now: u128) -> Option<String> {
    match cache.begin_load(key, sign, now) {
        CacheStep::Hit(code) => Some(code),
        CacheStep::Fetch { .. } => None,
    }
}

#[test]
fn a_miss_fetches_the_remote_and_a_hit_does_not() {
    let mut cache = CachedSource::new();
    assert!(fill(&mut cache, "k", "one", 0));
    assert_eq!(
        hit(&mut cache, "k", WatchSign::Quiet, 1_000_000),
        Some("one".to_string())
    );
    assert_eq!(hit(&mut cache, "other", WatchSign::Quiet, 0), None);
}

#[test]
fn invalidate_forces_a_refetch() {
    let mut cache = CachedSource::new();
    fill(&mut cache, "a", "one", 0);
    fill(&mut cache, "b", "two", 0);
    cache.invalidate("a");
    assert!(!fill(&mut cache, "a", "three", 0));
    assert_eq!(
        hit(&mut cache, "b", WatchSign::Quiet, 0),
        Some("two".to_string())
    );
    cache.invalidate_all();
    assert_eq!(hit(&mut cache, "a", WatchSign::Quiet, 0), None);
    assert_eq!(hit(&mut cache, "b", WatchSign::Quiet, 0), None);
}

#[test]
fn an_expired_entry_refetches_the_changed_remote() {
    let mut cache = CachedSource::new().with_ttl(10);
    fill(&mut cache, "k", "one", 5);
    assert_eq!(
        hit(&mut cache, "k", WatchSign::Quiet, 15),
        Some("one".to_string())
    );
    assert_eq!(hit(&mut cache, "k", WatchSign::Quiet, 16), None);
}

#[test]
fn a_watch_signal_evicts_the_entry_for_the_next_load() {
    let mut cache = CachedSource::new();
    fill(&mut cache, "k", "one", 0);
    assert_eq!(
        hit(&mut cache, "k", WatchSign::Ended, 0),
        Some("one".to_string())
    );
    assert_eq!(hit(&mut cache, "k", WatchSign::Tick, 0), None);
}

#[test]
fn a_failing_remote_fails_the_load() {
    let mut cache = CachedSource::new();
    let cause = error("boom").message();
    let text = format!("cached source: remote load \"k\": {cause}");
    assert_eq!(
        failed(cache.fetched("k", Err(error("boom")), 0)),
        message(&text)
    );
    let cannot: Result<u8, ScriptError> = Err(ScriptError::CapabilityNotSupported);
    assert_eq!(
        failed(cache.watched(cannot)),
        message("cached source: remote does not implement watching")
    );
}

// Configuration entries.

#[test]
fn loads_bridge_through_utf8() {
    let loaded = config_loaded("k", Ok(Some(b"caf\xc3\xa9".to_vec())));
    assert_eq!(loaded.unwrap(), "caf\u{e9}");
    assert_eq!(
        failed(config_loaded("k", Ok(Some(vec![0xff])))),
        message("config source: key \"k\" is not valid UTF-8")
    );
    assert_eq!(
        failed(config_loaded("k", Ok(None))),
        message("config source: key \"k\" not found")
    );
    assert_eq!(
        failed(config_loaded("k", Err(ConfigFailure::Other("boom".to_string())))),
        message("boom")
    );
    assert_eq!(
        bridge_error(ConfigFailure::NotWatchable),
        ScriptError::CapabilityNotSupported
    );
}
