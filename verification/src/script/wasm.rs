//! The WebAssembly engine. It offers its lifecycle, loading and running, and
//! nothing else.
use vstd::prelude::*;

use crate::script::engine::Capabilities;
use crate::script::error::ScriptError;
use crate::script::factory::{register_factory, FactoryRegistry};
use crate::script::lifecycle::Lifecycle;
use crate::script::value::ScriptValue;

verus! {

/// The name the engine is registered under.
pub const NAME: &'static str = "wasm";

/// The name of the function that a run calls.
pub const ENTRY_POINT: &'static str = "_start";

/// A compiled module, opaque.
#[verifier::external_type_specification]
#[verifier::external_body]
pub struct ExWasmModule(wasmi::Module);

/// What modules are compiled for and run in, opaque.
#[verifier::external_type_specification]
#[verifier::external_body]
pub struct ExWasmRuntime(wasmi::Engine);

/// What `wasmi::Module::new` makes of some bytes, for a runtime: the module, or
/// why there is none.
pub uninterp spec fn module_of(runtime: wasmi::Engine, bytes: Seq<u8>) -> Result<
    wasmi::Module,
    Seq<char>,
>;

/// A result with its reason as a text.
pub open spec fn module_outcome(r: Result<wasmi::Module, String>) -> Result<
    wasmi::Module,
    Seq<char>,
> {
    match r {
        Ok(module) => Ok(module),
        Err(cause) => Err(cause@),
    }
}

/// `wasmi::Engine::default`: a runtime with the default configuration. Nothing
/// is said of it; two calls give two runtimes.
#[verifier::external_body]
fn new_runtime() -> (r: wasmi::Engine) {
    wasmi::Engine::default()
}

/// `wasmi::Module::new`: the module, or why there is none, depends on the
/// runtime and the bytes alone. What a module does when it runs is left unsaid.
#[verifier::external_body]
fn compile_module(runtime: &wasmi::Engine, bytes: &[u8]) -> (r: Result<wasmi::Module, String>)
    ensures
        module_outcome(r) == module_of(*runtime, bytes@),
{
    wasmi::Module::new(runtime, bytes).map_err(|err| err.to_string())
}

/// What running a module came to.
pub enum RunOutcome {
    /// It could not be instantiated.
    NotInstantiated(String),
    /// It exports nothing under the name of the entry point.
    NoExport,
    /// What it exports there is no function.
    NoFunction,
    /// The function there takes arguments or gives results.
    OtherSignature,
    /// The entry point trapped.
    Trapped(String),
    /// The entry point ran.
    Finished,
}

/// The engine. `S` is whatever stands for a source.
pub struct WasmEngine<S> {
    pub life: Lifecycle<S, ()>,
    /// What modules are compiled for, from the initialisation until the engine
    /// is closed.
    pub runtime: Option<wasmi::Engine>,
    /// The modules loaded.
    pub modules: Vec<wasmi::Module>,
}

impl<S> Default for WasmEngine<S> {
    fn default() -> (r: Self)
        ensures
            r.life.label@ == "wasm engine"@,
            !r.life.initialized,
            r.life.bound is None,
            r.life.last_error is None,
            r.runtime is None,
            r.modules@ == Seq::<wasmi::Module>::empty(),
    {
        Self::new()
    }
}

impl<S> WasmEngine<S> {
    /// The engine before its first initialisation.
    pub fn new() -> (r: Self)
        ensures
            r.life.label@ == "wasm engine"@,
            !r.life.initialized,
            r.life.bound is None,
            r.life.last_error is None,
            r.runtime is None,
            r.modules@ == Seq::<wasmi::Module>::empty(),
    {
        WasmEngine { life: Lifecycle::new("wasm engine"), runtime: None, modules: Vec::new() }
    }

    /// The name the engine is registered under.
    pub fn engine_type(&self) -> (r: &'static str)
        ensures
            r@ == NAME@,
    {
        NAME
    }

    /// What the engine offers: loading and running.
    pub fn capabilities(&self) -> (r: Capabilities)
        ensures
            r == (Capabilities {
                loader: true,
                executor: true,
                globals: false,
                functions: false,
                modules: false,
                watcher: false,
                sandbox: false,
                runtime_hooks: false,
                sync_executor: false,
                quota: false,
            }),
    {
        let mut some = Capabilities::lifecycle_only();
        some.loader = true;
        some.executor = true;
        some
    }

    /// Initialises the engine, with a runtime of its own.
    pub fn init(&mut self) -> (r: Result<(), ScriptError>)
        ensures
            old(self).life.initialized ==> old(self).life.failed(
                final(self).life,
                r,
                old(self).life.complaint(": already initialized"@),
            ) && final(self).runtime == old(self).runtime,
            !old(self).life.initialized ==> final(self).runtime is Some,
            !old(self).life.initialized ==> r is Ok && final(self).life == (Lifecycle {
                initialized: true,
                last_error: None,
                ..old(self).life
            }),
            final(self).modules == old(self).modules,
    {
        self.life.begin_init()?;
        self.runtime = Some(new_runtime());
        self.life.clear_error();
        Ok(())
    }

    /// Closes the engine.
    pub fn close(&mut self)
        ensures
            !final(self).life.initialized,
            final(self).life.bound is None,
            final(self).life.last_error is None,
            final(self).life.label == old(self).life.label,
            final(self).runtime is None,
            final(self).modules@ == Seq::<wasmi::Module>::empty(),
    {
        let _ = self.life.close();
        self.runtime = None;
        self.modules = Vec::new();
    }

    /// Takes what compiling a module came to. A module is kept, to be run.
    pub fn compiled(&mut self, outcome: Result<wasmi::Module, String>) -> (r: Result<
        (),
        ScriptError,
    >)
        ensures
            match outcome {
                Ok(module) => r is Ok && final(self).modules@ == old(self).modules@.push(module)
                    && final(self).life == old(self).life.recording(None),
                Err(cause) => old(self).life.failed(
                    final(self).life,
                    r,
                    old(self).life.complaint(": compile failed: "@ + cause@),
                ) && final(self).modules == old(self).modules,
            },
            final(self).runtime == old(self).runtime,
    {
        let module = self.life.settle(": compile failed: ", outcome)?;
        self.modules.push(module);
        Ok(())
    }

    /// Compiles a module out of the bytes of a text, and keeps it.
    pub fn load_string(&mut self, code: &str) -> (r: Result<(), ScriptError>)
        ensures
            !old(self).life.initialized || old(self).runtime is None ==> old(self).life.failed(
                final(self).life,
                r,
                old(self).life.complaint(": not initialized"@),
            ) && final(self).modules == old(self).modules,
            old(self).life.initialized && old(self).runtime is Some ==> match module_of(
                old(self).runtime->0,
                vstd::utf8::encode_utf8(code@),
            ) {
                Ok(module) => r is Ok && final(self).life == old(self).life.recording(None)
                    && final(self).modules@ == old(self).modules@.push(module),
                Err(cause) => old(self).life.failed(
                    final(self).life,
                    r,
                    old(self).life.complaint(": compile failed: "@ + cause),
                ) && final(self).modules == old(self).modules,
            },
            final(self).runtime == old(self).runtime,
    {
        self.life.guard()?;
        let outcome = match &self.runtime {
            Some(runtime) => compile_module(runtime, code.as_bytes()),
            None => {
                return Err(self.life.complain(": not initialized"));
            },
        };
        self.compiled(outcome)
    }

    /// Begins a run of the module that was loaded last. There must be one.
    pub fn begin_execute(&mut self) -> (r: Result<(), ScriptError>)
        ensures
            !old(self).life.initialized ==> old(self).life.failed(
                final(self).life,
                r,
                old(self).life.complaint(": not initialized"@),
            ),
            old(self).life.initialized && old(self).modules@.len() == 0 ==> old(self).life.failed(
                final(self).life,
                r,
                old(self).life.complaint(": no module loaded"@),
            ),
            old(self).life.initialized && old(self).modules@.len() > 0 ==> r is Ok
                && final(self).life == old(self).life,
            final(self).modules == old(self).modules,
            final(self).runtime == old(self).runtime,
    {
        self.life.guard()?;
        if self.modules.len() == 0 {
            return Err(self.life.complain(": no module loaded"));
        }
        Ok(())
    }

    /// The module that was loaded last.
    pub fn last_module(&self) -> (r: Option<&wasmi::Module>)
        ensures
            match r {
                Some(m) => self.modules@.len() > 0 && *m == self.modules@.last(),
                None => self.modules@.len() == 0,
            },
    {
        let n: usize = self.modules.len();
        if n == 0 {
            return None;
        }
        Some(&self.modules[n - 1])
    }

    /// Settles a run. It gives nothing back, also where there was no function
    /// to run.
    pub fn settle_run(&mut self, outcome: RunOutcome) -> (r: Result<ScriptValue, ScriptError>)
        ensures
            match outcome {
                RunOutcome::NotInstantiated(cause) => old(self).life.failed(
                    final(self).life,
                    r,
                    old(self).life.complaint(": instantiation failed: "@ + cause@),
                ),
                RunOutcome::Trapped(cause) => old(self).life.failed(
                    final(self).life,
                    r,
                    old(self).life.complaint(": _start trapped: "@ + cause@),
                ),
                RunOutcome::NoExport | RunOutcome::NoFunction | RunOutcome::OtherSignature
                | RunOutcome::Finished => r == Ok::<ScriptValue, ScriptError>(ScriptValue::Null)
                    && final(self).life == old(self).life.recording(None),
            },
            final(self).modules == old(self).modules,
            final(self).runtime == old(self).runtime,
    {
        match outcome {
            RunOutcome::NotInstantiated(cause) => self.life.settle(
                ": instantiation failed: ",
                Err(cause),
            ),
            RunOutcome::Trapped(cause) => self.life.settle(": _start trapped: ", Err(cause)),
            _ => self.life.settle("", Ok(ScriptValue::Null)),
        }
    }

    /// The answer to what the engine does not offer: globals, functions,
    /// modules and watches.
    pub fn unsupported<T>(&self) -> (r: Result<T, ScriptError>)
        ensures
            r == Err::<T, ScriptError>(ScriptError::CapabilityNotSupported),
    {
        Err(ScriptError::CapabilityNotSupported)
    }
}

/// Makes an engine, not initialised.
pub fn factory<S>() -> (r: Result<WasmEngine<S>, ScriptError>)
    ensures
        r is Ok,
        !r->Ok_0.life.initialized,
        r->Ok_0.life.label@ == "wasm engine"@,
        r->Ok_0.modules@ == Seq::<wasmi::Module>::empty(),
{
    Ok(WasmEngine::new())
}

/// Registers the factory of the engine under its name. Where the name is taken
/// nothing happens.
pub fn register<F>(registry: &mut FactoryRegistry<F>, factory: F)
    ensures
        old(registry)@.contains_key(NAME@) ==> *final(registry) == *old(registry),
        !old(registry)@.contains_key(NAME@) ==> final(registry)@ == old(registry)@.insert(
            NAME@,
            factory,
        ),
{
    let _ = register_factory(registry, NAME, factory);
}

} // verus!
