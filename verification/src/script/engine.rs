//! What an engine can do beyond its lifecycle, and the budget of its runs.
use vstd::prelude::*;

verus! {

/// The budget of a synchronous run. A field that is not set is no bound.
#[derive(Clone, Copy, Debug, PartialEq, Eq)]
pub struct Quota {
    /// The time a run may take, in nanoseconds.
    pub timeout: Option<u128>,
    /// The number of instructions a run may take.
    pub max_instructions: Option<u64>,
}

impl Default for Quota {
    /// No bound.
    fn default() -> (r: Self)
        ensures
            r == (Quota { timeout: None, max_instructions: None }),
    {
        Quota { timeout: None, max_instructions: None }
    }
}

impl Quota {
    /// A run that took this long overran the time.
    pub open spec fn overran(&self, elapsed: u128) -> bool {
        self.timeout is Some && elapsed >= self.timeout->0
    }

    /// Whether a run that took this long overran the time.
    pub fn is_overrun(&self, elapsed: u128) -> (r: bool)
        ensures
            r == self.overran(elapsed),
    {
        match self.timeout {
            Some(budget) => elapsed >= budget,
            None => false,
        }
    }
}

/// A run overruns from its bound on and not before, and one without a bound
/// never does.
pub proof fn run_overruns_from_its_bound_on(quota: Quota, bound: u128, elapsed: u128)
    ensures
        quota.timeout == Some(bound) ==> (quota.overran(elapsed) <==> elapsed >= bound),
        quota.timeout is None ==> !quota.overran(elapsed),
{
}

/// What an engine offers beside its lifecycle.
#[derive(Clone, Copy, Debug, PartialEq, Eq, Structural)]
pub struct Capabilities {
    /// Loading scripts from a source.
    pub loader: bool,
    /// Running scripts.
    pub executor: bool,
    /// Reading and writing globals.
    pub globals: bool,
    /// Host functions and calls of script functions.
    pub functions: bool,
    /// Modules.
    pub modules: bool,
    /// Reloading a script when it changes.
    pub watcher: bool,
    /// Choosing the standard libraries.
    pub sandbox: bool,
    /// Hooks that run on a fresh runtime.
    pub runtime_hooks: bool,
    /// Synchronous runs.
    pub sync_executor: bool,
    /// Budgets for synchronous runs.
    pub quota: bool,
}

/// A full-featured engine offers each of six things, and lacking any one of
/// them makes an engine less; what stands apart from them makes no difference.
pub proof fn six_things_make_an_engine_full(c: Capabilities, d: Capabilities)
    requires
        c.loader == d.loader,
        c.executor == d.executor,
        c.globals == d.globals,
        c.functions == d.functions,
        c.modules == d.modules,
        c.watcher == d.watcher,
    ensures
        c.full() == d.full(),
        !c.loader || !c.executor || !c.globals || !c.functions || !c.modules || !c.watcher
            ==> !c.full(),
        c.loader && c.executor && c.globals && c.functions && c.modules && c.watcher ==> c.full(),
{
}

impl Capabilities {
    /// The engine offers everything that a full-featured engine does. The
    /// sandbox, the hooks, the synchronous runs and their budgets stand apart
    /// from that.
    pub open spec fn full(&self) -> bool {
        self.loader && self.executor && self.globals && self.functions && self.modules
            && self.watcher
    }

    /// Whether the engine offers everything that a full-featured engine does.
    pub fn is_full(&self) -> (r: bool)
        ensures
            r == self.full(),
    {
        self.loader && self.executor && self.globals && self.functions && self.modules
            && self.watcher
    }

    /// An engine with its lifecycle alone.
    pub fn lifecycle_only() -> (r: Self)
        ensures
            r == (Capabilities {
                loader: false,
                executor: false,
                globals: false,
                functions: false,
                modules: false,
                watcher: false,
                sandbox: false,
                runtime_hooks: false,
                sync_executor: false,
                quota: false,
            }),
    {
        Capabilities {
            loader: false,
            executor: false,
            globals: false,
            functions: false,
            modules: false,
            watcher: false,
            sandbox: false,
            runtime_hooks: false,
            sync_executor: false,
            quota: false,
        }
    }

    /// A full-featured engine without the capabilities that stand apart.
    pub fn aggregate() -> (r: Self)
        ensures
            r == (Capabilities {
                loader: true,
                executor: true,
                globals: true,
                functions: true,
                modules: true,
                watcher: true,
                sandbox: false,
                runtime_hooks: false,
                sync_executor: false,
                quota: false,
            }),
    {
        Capabilities {
            loader: true,
            executor: true,
            globals: true,
            functions: true,
            modules: true,
            watcher: true,
            sandbox: false,
            runtime_hooks: false,
            sync_executor: false,
            quota: false,
        }
    }
}

/// Loading through a bound source. `S` is whatever stands for a source.
pub trait ScriptLoader<S> {
    /// The source that loads read through.
    spec fn source(&self) -> Option<S>;

    /// Binds a source, or unbinds the one there is.
    fn set_source(&mut self, source: Option<S>)
        ensures
            final(self).source() == source,
    ;

    /// The source that loads read through.
    fn get_source(&self) -> (r: &Option<S>)
        ensures
            *r == self.source(),
    ;
}

/// Reloading a script when it changes. `W` is whatever stands for a running
/// watch.
pub trait ScriptWatcher<W> {
    /// The running watches, by the key they are for.
    spec fn watches(&self) -> Map<Seq<char>, W>;

    /// Keeps a running watch under its key. An earlier one that it takes the
    /// place of is given up, for the caller to end.
    fn keep_watch(&mut self, key: &str, watch: W) -> (r: Option<W>)
        ensures
            final(self).watches() == old(self).watches().insert(key@, watch),
            r == (if old(self).watches().contains_key(key@) {
                Some(old(self).watches()[key@])
            } else {
                None
            }),
    ;

    /// Gives up the watch of a key, for the caller to end. There need not be
    /// one.
    fn stop_watch(&mut self, key: &str) -> (r: Option<W>)
        ensures
            final(self).watches() == old(self).watches().remove(key@),
            r == (if old(self).watches().contains_key(key@) {
                Some(old(self).watches()[key@])
            } else {
                None
            }),
    ;
}

/// Choosing the standard libraries that scripts can reach. The choice counts
/// from the next initialisation on.
pub trait SandboxConfigurator {
    /// The names on the list.
    spec fn open_libs(&self) -> Seq<Seq<char>>;

    /// Replaces the list.
    fn set_open_libs(&mut self, libs: &[&str])
        ensures
            final(self).open_libs().len() == libs@.len(),
            forall|i: int| 0 <= i < libs@.len()
                ==> #[trigger] final(self).open_libs()[i] == libs@[i]@,
    ;
}

/// Hooks that run on the runtime once it is there. `H` is whatever stands for
/// a hook.
pub trait RuntimeHookRegistrar<H> {
    /// There is a runtime.
    spec fn is_live(&self) -> bool;

    /// The hooks that wait for a runtime.
    spec fn waiting_hooks(&self) -> Seq<H>;

    /// Registers a hook. Without a runtime it waits for one; else it is handed
    /// back, to be run at once.
    fn add_runtime_hook(&mut self, hook: H) -> (r: Option<H>)
        ensures
            r == (if old(self).is_live() {
                Some(hook)
            } else {
                None
            }),
            final(self).is_live() == old(self).is_live(),
            final(self).waiting_hooks() == (if old(self).is_live() {
                old(self).waiting_hooks()
            } else {
                old(self).waiting_hooks().push(hook)
            }),
    ;
}

/// Bounding the runs to come.
pub trait QuotaController {
    /// The budget of the next run.
    spec fn budget(&self) -> Quota;

    /// Replaces the budget.
    fn set_quota(&mut self, quota: Quota)
        ensures
            final(self).budget() == quota,
    ;
}

} // verus!
