//! The JavaScript engine. A worker owns the runtime and takes one command
//! after the other; the engine sends commands and settles their answers.
use vstd::prelude::*;

use crate::script::engine::{Capabilities, Quota, QuotaController, RuntimeHookRegistrar};
use crate::script::error::ScriptError;
use crate::script::factory::{register_factory, FactoryRegistry};
use crate::script::json_tree::{from_json, to_json, Json};
use crate::script::lifecycle::Lifecycle;
use crate::script::value::{ScriptValue, ValueView};
use crate::text::cat;

verus! {

/// The name the engine is registered under.
pub const NAME: &'static str = "javascript";

/// What the worker is asked to do.
pub enum Command {
    /// Run programs one after the other, and answer with what all of them gave.
    EvalAll(Vec<String>),
    /// Run one program, and answer with what it gave.
    EvalOne(String),
    /// Define a global.
    SetGlobal {
        name: String,
        value: ScriptValue,
    },
    /// Read a global.
    GetGlobal(String),
    /// Define a module, which is a global.
    SetModule {
        name: String,
        value: ScriptValue,
    },
    /// Call a function of the script.
    Call {
        name: String,
        args: Vec<ScriptValue>,
    },
    /// Stop.
    Drop,
}

/// What the runtime is asked to do.
pub enum Task {
    /// Parse and run a program.
    Eval(String),
    /// Define a global property.
    Define {
        name: String,
        value: Json,
    },
    /// Read a global property.
    Read(String),
    /// Call what a global property holds.
    Call {
        name: String,
        args: Vec<Json>,
    },
}

/// What the runtime reports. A value that JSON cannot hold is reported as none;
/// failures are lines of text.
pub enum Report {
    /// A program ran.
    Evaluated(Result<Option<Json>, String>),
    /// A global property was defined.
    Defined(Result<(), String>),
    /// A global property was read.
    Found(Result<Option<Json>, String>),
    /// The global property is not defined.
    Undefined,
    /// The global property holds nothing that can be called.
    NotCallable,
    /// A function was called.
    Called(Result<Option<Json>, String>),
}

/// What the worker answers a command with.
pub enum Reply {
    Values(Result<Vec<ScriptValue>, ScriptError>),
    Value(Result<ScriptValue, ScriptError>),
    Done(Result<(), ScriptError>),
}

/// What the worker does next.
pub enum WorkerStep {
    /// Have the runtime do something, and report.
    Run(Task),
    /// Answer the command, and wait for the next.
    Answer(Reply),
    /// Stop.
    Stop,
}

/// The worker: what it waits to be reported.
pub enum Worker {
    /// Nothing: it waits for a command.
    Idle,
    /// A program out of several. Those in `rest` come after it, those before it
    /// gave `results`.
    EvaluatingAll {
        rest: Vec<String>,
        results: Vec<ScriptValue>,
    },
    /// A program.
    EvaluatingOne,
    /// A global property being defined.
    Defining,
    /// The global property of this name being read.
    Reading(String),
    /// A call of the function of this name.
    Calling(String),
}

/// What the runtime gave, as a script value.
pub open spec fn given(json: Option<Json>) -> ValueView {
    match json {
        Some(j) => crate::script::json_tree::json_value(j@),
        None => ValueView::Null,
    }
}

/// What the runtime gave is read as the JSON it has, and as null where it has
/// none; what it reported as a failure is one, for the same cause.
pub proof fn report_is_read_as_it_is(json: Json, cause: String)
    ensures
        given(Some(json)) == crate::script::json_tree::json_value(json@),
        given(None) == ValueView::Null,
        outcome_of(Ok(Some(json))) == Ok::<ValueView, Seq<char>>(
            crate::script::json_tree::json_value(json@),
        ),
        outcome_of(Ok(None)) == Ok::<ValueView, Seq<char>>(ValueView::Null),
        outcome_of(Err(cause)) == Err::<ValueView, Seq<char>>(cause@),
        forall|report: Result<Option<Json>, String>, r: Result<ScriptValue, ScriptError>| #[trigger]
            answers(report, r) ==> match report {
                Ok(Some(j)) => r matches Ok(v) && v@ == crate::script::json_tree::json_value(j@),
                Ok(None) => r matches Ok(v) && v@ == ValueView::Null,
                Err(e) => r matches Err(ScriptError::Failed(msg)) && msg@ == "javascript engine: "@
                    + e@,
            },
{
}

/// `r` is the failure that the runtime reported as `cause`.
pub open spec fn runtime_failed<T>(r: Result<T, ScriptError>, cause: Seq<char>) -> bool {
    crate::script::error::fails(r, "javascript engine: "@ + cause)
}

/// `r` is what the runtime reported of a value.
pub open spec fn answers(
    report: Result<Option<Json>, String>,
    r: Result<ScriptValue, ScriptError>,
) -> bool {
    match report {
        Ok(json) => r is Ok && r->Ok_0@ == given(json),
        Err(cause) => runtime_failed(r, cause@),
    }
}

/// Running several programs: what is left to run and what was given so far, or
/// the answer.
#[verifier::ext_equal]
pub enum Progress {
    Running {
        rest: Seq<Seq<char>>,
        results: Seq<ValueView>,
    },
    Answered(Result<Seq<ValueView>, Seq<char>>),
}

/// Running several programs, from the first on.
pub open spec fn start_all(codes: Seq<Seq<char>>) -> Progress {
    if codes.len() == 0 {
        Progress::Answered(Ok(Seq::empty()))
    } else {
        Progress::Running { rest: codes.skip(1), results: Seq::empty() }
    }
}

/// What the outcome of the program that runs leads to. A failure is the answer,
/// and what the programs before gave is dropped.
pub open spec fn step_all(p: Progress, outcome: Result<ValueView, Seq<char>>) -> Progress {
    match p {
        Progress::Answered(_) => p,
        Progress::Running { rest, results } => match outcome {
            Err(cause) => Progress::Answered(Err(cause)),
            Ok(v) => if rest.len() == 0 {
                Progress::Answered(Ok(results.push(v)))
            } else {
                Progress::Running { rest: rest.skip(1), results: results.push(v) }
            },
        },
    }
}

/// Where several outcomes lead to.
pub open spec fn run_all(p: Progress, outcomes: Seq<Result<ValueView, Seq<char>>>) -> Progress
    decreases outcomes.len(),
{
    if outcomes.len() == 0 {
        p
    } else {
        run_all(step_all(p, outcomes[0]), outcomes.skip(1))
    }
}

/// What a run of a program came to.
pub open spec fn outcome_of(report: Result<Option<Json>, String>) -> Result<ValueView, Seq<char>> {
    match report {
        Ok(json) => Ok(given(json)),
        Err(cause) => Err(cause@),
    }
}

proof fn lemma_run_all(
    rest: Seq<Seq<char>>,
    results: Seq<ValueView>,
    outcomes: Seq<Result<ValueView, Seq<char>>>,
    failed: int,
)
    requires
        0 <= failed <= rest.len() + 1,
        outcomes.len() == rest.len() + 1,
        forall|i: int| 0 <= i < failed ==> (#[trigger] outcomes[i]) is Ok,
        failed < outcomes.len() ==> outcomes[failed] is Err,
    ensures
        run_all(Progress::Running { rest, results }, outcomes) == Progress::Answered(
            if failed < outcomes.len() {
                Err(outcomes[failed]->Err_0)
            } else {
                Ok(results + Seq::new(outcomes.len(), |i: int| outcomes[i]->Ok_0))
            },
        ),
    decreases rest.len(),
{
    let p = Progress::Running { rest, results };
    let tail = outcomes.skip(1);
    if failed == 0 {
        lemma_answered_stays(Err(outcomes[0]->Err_0), tail);
    } else if rest.len() == 0 {
        let v = outcomes[0]->Ok_0;
        assert(results + Seq::new(outcomes.len(), |i: int| outcomes[i]->Ok_0) =~= results.push(v));
        lemma_answered_stays(Ok(results.push(v)), tail);
    } else {
        let v = outcomes[0]->Ok_0;
        assert forall|i: int| 0 <= i < failed - 1 implies (#[trigger] tail[i]) is Ok by {
            assert(tail[i] == outcomes[i + 1]);
        }
        lemma_run_all(rest.skip(1), results.push(v), tail, failed - 1);
        assert(results + Seq::new(outcomes.len(), |i: int| outcomes[i]->Ok_0) =~= results.push(v)
            + Seq::new(tail.len(), |i: int| tail[i]->Ok_0));
    }
}

proof fn lemma_answered_stays(
    answer: Result<Seq<ValueView>, Seq<char>>,
    outcomes: Seq<Result<ValueView, Seq<char>>>,
)
    ensures
        run_all(Progress::Answered(answer), outcomes) == Progress::Answered(answer),
    decreases outcomes.len(),
{
    if outcomes.len() > 0 {
        lemma_answered_stays(answer, outcomes.skip(1));
    }
}

/// Programs that all run are answered with what they gave, in their order; the
/// first that fails is the answer, and no program after it counts.
pub proof fn programs_run_in_order(
    codes: Seq<Seq<char>>,
    outcomes: Seq<Result<ValueView, Seq<char>>>,
    failed: int,
)
    requires
        outcomes.len() == codes.len(),
        0 <= failed <= codes.len(),
        forall|i: int| 0 <= i < failed ==> (#[trigger] outcomes[i]) is Ok,
        failed < outcomes.len() ==> outcomes[failed] is Err,
    ensures
        run_all(start_all(codes), outcomes) == Progress::Answered(
            if failed < outcomes.len() {
                Err(outcomes[failed]->Err_0)
            } else {
                Ok(Seq::new(outcomes.len(), |i: int| outcomes[i]->Ok_0))
            },
        ),
{
    if codes.len() == 0 {
        assert(Seq::new(outcomes.len(), |i: int| outcomes[i]->Ok_0) =~= Seq::empty());
    } else {
        lemma_run_all(codes.skip(1), Seq::empty(), outcomes, failed);
        assert(Seq::<ValueView>::empty() + Seq::new(outcomes.len(), |i: int| outcomes[i]->Ok_0)
            =~= Seq::new(outcomes.len(), |i: int| outcomes[i]->Ok_0));
    }
}

/// The progress of a worker is what it holds: the programs that are left and
/// what the others gave, in their order, or the values it answers with.
pub proof fn progress_is_what_the_worker_holds(worker: Worker, step: WorkerStep)
    ensures
        worker matches Worker::EvaluatingAll { rest, results } ==> step is Run ==> step->Run_0
            is Eval ==> worker.progress(step) == Some(
            Progress::Running {
                rest: crate::text::texts(rest@),
                results: crate::script::value::views(results@),
            },
        ),
        step matches WorkerStep::Answer(Reply::Values(Ok(values))) ==> worker is Idle
            ==> worker.progress(step) == Some(
            Progress::Answered(Ok(crate::script::value::views(values@))),
        ),
{
}

fn value_of(json: &Option<Json>) -> (r: ScriptValue)
    ensures
        r@ == given(*json),
{
    match json {
        Some(j) => from_json(j),
        None => ScriptValue::Null,
    }
}

fn runtime_error(cause: &str) -> (r: ScriptError)
    ensures
        r.says("javascript engine: "@ + cause@),
{
    ScriptError::Failed(cat("javascript engine: ", cause))
}

fn answer_of(report: Result<Option<Json>, String>) -> (r: Result<ScriptValue, ScriptError>)
    ensures
        answers(report, r),
{
    match report {
        Ok(json) => Ok(value_of(&json)),
        Err(cause) => Err(runtime_error(cause.as_str())),
    }
}

fn json_args(args: &Vec<ScriptValue>) -> (r: Vec<Json>)
    ensures
        crate::script::json_tree::list_view(r@) == crate::script::json_tree::items_json(
            crate::script::value::views(args@),
        ),
{
    let mut out: Vec<Json> = Vec::new();
    let mut i: usize = 0;
    while i < args.len()
        invariant
            i <= args@.len(),
            out@.len() == i,
            forall|j: int|
                0 <= j < i ==> (#[trigger] out@[j])@ == crate::script::json_tree::value_json(
                    args@[j]@,
                ),
        decreases args@.len() - i,
    {
        out.push(to_json(&args[i]));
        i += 1;
    }
    assert(crate::script::json_tree::list_view(out@) =~= crate::script::json_tree::items_json(
        crate::script::value::views(args@),
    ));
    out
}

impl Worker {
    /// The progress of running several programs, after a step.
    pub open spec fn progress(self, step: WorkerStep) -> Option<Progress> {
        match (self, step) {
            (Worker::EvaluatingAll { rest, results }, WorkerStep::Run(Task::Eval(_))) => Some(
                Progress::Running {
                    rest: crate::text::texts(rest@),
                    results: crate::script::value::views(results@),
                },
            ),
            (Worker::Idle, WorkerStep::Answer(Reply::Values(Ok(values)))) => Some(
                Progress::Answered(Ok(crate::script::value::views(values@))),
            ),
            _ => None,
        }
    }

    /// The report is the one waited for.
    pub open spec fn expects(self, report: Report) -> bool {
        match self {
            Worker::Idle => false,
            Worker::EvaluatingAll { .. } => report is Evaluated,
            Worker::EvaluatingOne => report is Evaluated,
            Worker::Defining => report is Defined,
            Worker::Reading(_) => report is Found || report is Undefined,
            Worker::Calling(_) => report is NotCallable || report is Called,
        }
    }

    /// A worker that waits for a command.
    pub fn new() -> (r: Self)
        ensures
            r is Idle,
    {
        Worker::Idle
    }

    /// Takes a command.
    pub fn command(&mut self, command: Command) -> (r: WorkerStep)
        requires
            *old(self) is Idle,
        ensures
            match command {
                Command::Drop => r is Stop && *final(self) is Idle,
                Command::EvalAll(codes) => {
                    &&& final(self).progress(r) == Some(start_all(crate::text::texts(codes@)))
                    &&& codes@.len() > 0 ==> r == WorkerStep::Run(Task::Eval(codes@[0])) && (
                    *final(self) matches Worker::EvaluatingAll { rest, .. } && rest@
                        == codes@.skip(1))
                },
                Command::EvalOne(code) => r == WorkerStep::Run(Task::Eval(code))
                    && *final(self) is EvaluatingOne,
                Command::SetGlobal { name, value } => *final(self) is Defining && (r matches
                    WorkerStep::Run(Task::Define { name: n, value: j }) && n == name && j@
                    == crate::script::json_tree::value_json(value@)),
                Command::GetGlobal(name) => (*final(self) matches Worker::Reading(n) && n@
                    == name@) && r == WorkerStep::Run(Task::Read(name)),
                Command::SetModule { name, value } => *final(self) is Defining && (r matches
                    WorkerStep::Run(Task::Define { name: n, value: j }) && n == name && j@
                    == crate::script::json_tree::value_json(value@)),
                Command::Call { name, args } => (*final(self) matches Worker::Calling(n) && n@
                    == name@) && (r matches WorkerStep::Run(Task::Call { name: n, args: a }) && n@
                    == name@ && crate::script::json_tree::list_view(a@)
                    == crate::script::json_tree::items_json(crate::script::value::views(args@))),
            },
    {
        match command {
            Command::Drop => WorkerStep::Stop,
            Command::EvalAll(codes) => {
                if codes.len() == 0 {
                    let none: Vec<ScriptValue> = Vec::new();
                    assert(crate::script::value::views(none@) =~= Seq::empty());
                    return WorkerStep::Answer(Reply::Values(Ok(none)));
                }
                let ghost all = crate::text::texts(codes@);
                let ghost whole = codes@;
                let mut rest = codes;
                let code = rest.remove(0);
                let results: Vec<ScriptValue> = Vec::new();
                proof {
                    assert(rest@ =~= whole.skip(1));
                    assert(crate::text::texts(rest@) =~= all.skip(1));
                    assert(crate::script::value::views(results@) =~= Seq::empty());
                }
                *self = Worker::EvaluatingAll { rest, results };
                WorkerStep::Run(Task::Eval(code))
            },
            Command::EvalOne(code) => {
                *self = Worker::EvaluatingOne;
                WorkerStep::Run(Task::Eval(code))
            },
            Command::SetGlobal { name, value } => {
                *self = Worker::Defining;
                WorkerStep::Run(Task::Define { name, value: to_json(&value) })
            },
            Command::GetGlobal(name) => {
                *self = Worker::Reading(name.clone());
                WorkerStep::Run(Task::Read(name))
            },
            Command::SetModule { name, value } => {
                *self = Worker::Defining;
                WorkerStep::Run(Task::Define { name, value: to_json(&value) })
            },
            Command::Call { name, args } => {
                *self = Worker::Calling(name.clone());
                WorkerStep::Run(Task::Call { name, args: json_args(&args) })
            },
        }
    }

    /// Takes the report that was waited for.
    pub fn report(&mut self, report: Report) -> (r: WorkerStep)
        requires
            old(self).expects(report),
        ensures
            match *old(self) {
                Worker::EvaluatingAll { rest, results } => {
                    let before = Progress::Running {
                        rest: crate::text::texts(rest@),
                        results: crate::script::value::views(results@),
                    };
                    let after = step_all(before, outcome_of(report->Evaluated_0));
                    match after {
                        Progress::Answered(Err(cause)) => *final(self) is Idle && (r matches
                            WorkerStep::Answer(Reply::Values(answer)) && runtime_failed(
                            answer,
                            cause,
                        )),
                        _ => final(self).progress(r) == Some(after) && (rest@.len() > 0 ==> r
                            == WorkerStep::Run(Task::Eval(rest@[0])) && (*final(self) matches
                            Worker::EvaluatingAll { rest: left, .. } && left@ == rest@.skip(1))),
                    }
                },
                Worker::EvaluatingOne => *final(self) is Idle && (r matches WorkerStep::Answer(
                    Reply::Value(answer),
                ) && answers(report->Evaluated_0, answer)),
                Worker::Defining => *final(self) is Idle && (r matches WorkerStep::Answer(
                    Reply::Done(answer),
                ) && match report->Defined_0 {
                    Ok(_) => answer is Ok,
                    Err(cause) => runtime_failed(answer, cause@),
                }),
                Worker::Reading(name) => *final(self) is Idle && (r matches WorkerStep::Answer(
                    Reply::Value(answer),
                ) && match report {
                    Report::Found(outcome) => answers(outcome, answer),
                    _ => runtime_failed(answer, "global not found: "@ + name@),
                }),
                Worker::Calling(name) => *final(self) is Idle && (r matches WorkerStep::Answer(
                    Reply::Value(answer),
                ) && match report {
                    Report::Called(outcome) => answers(outcome, answer),
                    _ => runtime_failed(answer, "not callable: "@ + name@),
                }),
                Worker::Idle => true,
            },
    {
        let mut was = Worker::Idle;
        std::mem::swap(&mut was, self);
        match was {
            Worker::EvaluatingAll { rest, results } => {
                if let Report::Evaluated(outcome) = report {
                    match outcome {
                        Err(cause) => WorkerStep::Answer(
                            Reply::Values(Err(runtime_error(cause.as_str()))),
                        ),
                        Ok(json) => {
                            let ghost all = crate::text::texts(rest@);
                            let ghost before = crate::script::value::views(results@);
                            let mut results = results;
                            results.push(value_of(&json));
                            assert(crate::script::value::views(results@) =~= before.push(
                                given(json),
                            ));
                            if rest.len() == 0 {
                                return WorkerStep::Answer(Reply::Values(Ok(results)));
                            }
                            let ghost queued = rest@;
                            let mut rest = rest;
                            let code = rest.remove(0);
                            assert(rest@ =~= queued.skip(1));
                            assert(crate::text::texts(rest@) =~= all.skip(1));
                            *self = Worker::EvaluatingAll { rest, results };
                            WorkerStep::Run(Task::Eval(code))
                        },
                    }
                } else {
                    WorkerStep::Stop
                }
            },
            Worker::Reading(name) => match report {
                Report::Found(outcome) => WorkerStep::Answer(Reply::Value(answer_of(outcome))),
                _ => {
                    let cause = cat("global not found: ", name.as_str());
                    WorkerStep::Answer(Reply::Value(Err(runtime_error(cause.as_str()))))
                },
            },
            Worker::Calling(name) => match report {
                Report::Called(outcome) => WorkerStep::Answer(Reply::Value(answer_of(outcome))),
                _ => {
                    let cause = cat("not callable: ", name.as_str());
                    WorkerStep::Answer(Reply::Value(Err(runtime_error(cause.as_str()))))
                },
            },
            _ => match report {
                Report::Evaluated(outcome) => WorkerStep::Answer(Reply::Value(answer_of(outcome))),
                Report::Defined(outcome) => WorkerStep::Answer(
                    Reply::Done(
                        match outcome {
                            Ok(done) => Ok(done),
                            Err(cause) => Err(runtime_error(cause.as_str())),
                        },
                    ),
                ),
                _ => WorkerStep::Stop,
            },
        }
    }
}

/// The engine beside its worker. `S` is whatever stands for a source, `W` for a
/// running watch, `H` for a runtime hook.
pub struct JsEngine<S, W, H> {
    pub life: Lifecycle<S, W>,
    /// The programs loaded.
    pub programs: Vec<String>,
    /// The hooks that wait for the runtime.
    pub hooks: Vec<H>,
    /// The budget of the next run.
    pub quota: Quota,
}

impl<S, W, H> QuotaController for JsEngine<S, W, H> {
    open spec fn budget(&self) -> Quota {
        self.quota
    }

    fn set_quota(&mut self, quota: Quota)
        ensures
            *final(self) == (JsEngine { quota, ..*old(self) }),
    {
        self.quota = quota;
    }
}

impl<S, W, H> RuntimeHookRegistrar<H> for JsEngine<S, W, H> {
    open spec fn is_live(&self) -> bool {
        self.life.initialized
    }

    open spec fn waiting_hooks(&self) -> Seq<H> {
        self.hooks@
    }

    fn add_runtime_hook(&mut self, hook: H) -> (r: Option<H>)
        ensures
            final(self).life == old(self).life,
            final(self).programs == old(self).programs,
            final(self).quota == old(self).quota,
    {
        if self.life.initialized {
            return Some(hook);
        }
        self.hooks.push(hook);
        None
    }
}

impl<S, W, H> Default for JsEngine<S, W, H> {
    fn default() -> (r: Self)
        ensures
            r.life.label@ == "javascript engine"@,
            !r.life.initialized,
            r.life.bound is None,
            r.life.watchers@ == Map::<Seq<char>, W>::empty(),
            r.life.last_error is None,
            r.programs@ == Seq::<String>::empty(),
            r.hooks@ == Seq::<H>::empty(),
            r.quota == (Quota { timeout: None, max_instructions: None }),
    {
        Self::new()
    }
}

impl<S, W, H> JsEngine<S, W, H> {
    /// The engine before its first initialisation.
    pub fn new() -> (r: Self)
        ensures
            r.life.label@ == "javascript engine"@,
            !r.life.initialized,
            r.life.bound is None,
            r.life.watchers@ == Map::<Seq<char>, W>::empty(),
            r.life.last_error is None,
            r.programs@ == Seq::<String>::empty(),
            r.hooks@ == Seq::<H>::empty(),
            r.quota == (Quota { timeout: None, max_instructions: None }),
    {
        JsEngine {
            life: Lifecycle::new("javascript engine"),
            programs: Vec::new(),
            hooks: Vec::new(),
            quota: Quota::default(),
        }
    }

    /// The name the engine is registered under.
    pub fn engine_type(&self) -> (r: &'static str)
        ensures
            r@ == NAME@,
    {
        NAME
    }

    /// What the engine offers: all but a choice of libraries.
    pub fn capabilities(&self) -> (r: Capabilities)
        ensures
            r == (Capabilities {
                loader: true,
                executor: true,
                globals: true,
                functions: true,
                modules: true,
                watcher: true,
                sandbox: false,
                runtime_hooks: true,
                sync_executor: true,
                quota: true,
            }),
    {
        let mut all = Capabilities::aggregate();
        all.runtime_hooks = true;
        all.sync_executor = true;
        all.quota = true;
        all
    }

    /// Begins the initialisation. The hooks that waited are handed out, to run
    /// in their order.
    pub fn begin_init(&mut self) -> (r: Result<Vec<H>, ScriptError>)
        ensures
            old(self).life.initialized ==> old(self).life.failed(
                final(self).life,
                r,
                old(self).life.complaint(": already initialized"@),
            ) && final(self).hooks == old(self).hooks,
            !old(self).life.initialized ==> r is Ok && r->Ok_0@ == old(self).hooks@
                && final(self).life == (Lifecycle { initialized: true, ..old(self).life })
                && final(self).hooks@
                == Seq::<H>::empty(),
            final(self).programs == old(self).programs,
            final(self).quota == old(self).quota,
    {
        self.life.begin_init()?;
        let mut hooks: Vec<H> = Vec::new();
        std::mem::swap(&mut hooks, &mut self.hooks);
        Ok(hooks)
    }

    /// Ends the initialisation. A hook that failed makes it fail; the engine
    /// stays initialised all the same.
    pub fn end_init(&mut self, hooks_ran: bool) -> (r: Result<(), ScriptError>)
        ensures
            hooks_ran ==> r is Ok && *final(self) == (JsEngine {
                life: old(self).life.recording(None),
                ..*old(self)
            }),
            !hooks_ran ==> crate::script::error::fails(
                r,
                "javascript engine: runtime hook failed"@,
            ) && *final(self) == *old(self),
    {
        if !hooks_ran {
            return Err(ScriptError::Failed("javascript engine: runtime hook failed".to_owned()));
        }
        self.life.clear_error();
        Ok(())
    }

    /// Closes the engine. The watches that ran are handed back, to be ended.
    pub fn close(&mut self) -> (r: Vec<W>)
        ensures
            !final(self).life.initialized,
            final(self).life.bound is None,
            final(self).life.last_error is None,
            final(self).life.watchers@ == Map::<Seq<char>, W>::empty(),
            final(self).life.label == old(self).life.label,
            final(self).programs@ == Seq::<String>::empty(),
            final(self).hooks@ == Seq::<H>::empty(),
            final(self).quota == old(self).quota,
            r@.len() == old(self).life.watchers.keys().len(),
            forall|i: int|
                0 <= i < r@.len()
                    ==> #[trigger] r@[i]
                    == old(self).life.watchers@[old(self).life.watchers.keys()[i]],
    {
        let ended = self.life.close();
        self.programs = Vec::new();
        self.hooks = Vec::new();
        ended
    }

    /// Adds a program to those loaded.
    pub fn load_string(&mut self, code: &str) -> (r: Result<(), ScriptError>)
        ensures
            !old(self).life.initialized ==> old(self).life.failed(
                final(self).life,
                r,
                old(self).life.complaint(": not initialized"@),
            ) && final(self).programs == old(self).programs,
            old(self).life.initialized ==> r is Ok && final(self).life == old(self).life.recording(
                None,
            ) && crate::text::texts(final(self).programs@) == crate::text::texts(
                old(self).programs@,
            ).push(code@),
            final(self).hooks == old(self).hooks,
            final(self).quota == old(self).quota,
    {
        self.life.guard()?;
        let ghost before = crate::text::texts(self.programs@);
        self.programs.push(code.to_owned());
        assert(crate::text::texts(self.programs@) =~= before.push(code@));
        self.life.clear_error();
        Ok(())
    }

    /// Has all programs run that are loaded.
    pub fn begin_execute(&mut self) -> (r: Result<Command, ScriptError>)
        ensures
            !old(self).life.initialized ==> old(self).life.failed(
                final(self).life,
                r,
                old(self).life.complaint(": not initialized"@),
            ),
            old(self).life.initialized && old(self).programs@.len() == 0 ==> old(self).life.failed(
                final(self).life,
                r,
                old(self).life.complaint(": no program loaded"@),
            ),
            old(self).life.initialized && old(self).programs@.len() > 0
                ==> final(self).life == old(self).life && (r matches Ok(Command::EvalAll(codes))
                && crate::text::texts(codes@)
                == crate::text::texts(old(self).programs@)),
            final(self).programs == old(self).programs,
            final(self).hooks == old(self).hooks,
            final(self).quota == old(self).quota,
    {
        self.life.guard()?;
        if self.programs.len() == 0 {
            return Err(self.life.complain(": no program loaded"));
        }
        let codes = crate::registry::copy_texts(&self.programs);
        Ok(Command::EvalAll(codes))
    }

    /// Has the program run that was loaded last, and no other.
    pub fn begin_execute_sync(&mut self) -> (r: Result<Command, ScriptError>)
        ensures
            !old(self).life.initialized ==> old(self).life.failed(
                final(self).life,
                r,
                old(self).life.complaint(": not initialized"@),
            ),
            old(self).life.initialized && old(self).programs@.len() == 0 ==> old(self).life.failed(
                final(self).life,
                r,
                old(self).life.complaint(": no program loaded"@),
            ),
            old(self).life.initialized && old(self).programs@.len() > 0
                ==> final(self).life == old(self).life && (r matches Ok(Command::EvalOne(code))
                && code@ == old(self).programs@.last()@),
            final(self).programs == old(self).programs,
            final(self).hooks == old(self).hooks,
            final(self).quota == old(self).quota,
    {
        self.life.guard()?;
        let n: usize = self.programs.len();
        if n == 0 {
            return Err(self.life.complain(": no program loaded"));
        }
        Ok(Command::EvalOne(self.programs[n - 1].clone()))
    }

    /// Has one program run, which need not be loaded.
    pub fn begin_execute_string(&mut self, code: &str) -> (r: Result<Command, ScriptError>)
        ensures
            !old(self).life.initialized ==> old(self).life.failed(
                final(self).life,
                r,
                old(self).life.complaint(": not initialized"@),
            ),
            old(self).life.initialized ==> final(self).life == old(self).life && (r matches Ok(
                Command::EvalOne(c),
            ) && c@ == code@),
            final(self).programs == old(self).programs,
            final(self).hooks == old(self).hooks,
            final(self).quota == old(self).quota,
    {
        self.life.guard()?;
        Ok(Command::EvalOne(code.to_owned()))
    }

    /// Has a global defined.
    pub fn begin_register_global(&mut self, name: &str, value: ScriptValue) -> (r: Result<
        Command,
        ScriptError,
    >)
        ensures
            !old(self).life.initialized ==> old(self).life.failed(
                final(self).life,
                r,
                old(self).life.complaint(": not initialized"@),
            ),
            old(self).life.initialized ==> final(self).life == old(self).life && (r matches Ok(
                Command::SetGlobal { name: n, value: v },
            ) && n@ == name@ && v == value),
            final(self).programs == old(self).programs,
            final(self).hooks == old(self).hooks,
            final(self).quota == old(self).quota,
    {
        self.life.guard()?;
        Ok(Command::SetGlobal { name: name.to_owned(), value })
    }

    /// Has a global read.
    pub fn begin_get_global(&mut self, name: &str) -> (r: Result<Command, ScriptError>)
        ensures
            !old(self).life.initialized ==> old(self).life.failed(
                final(self).life,
                r,
                old(self).life.complaint(": not initialized"@),
            ),
            old(self).life.initialized ==> final(self).life == old(self).life && (r matches Ok(
                Command::GetGlobal(n),
            ) && n@ == name@),
            final(self).programs == old(self).programs,
            final(self).hooks == old(self).hooks,
            final(self).quota == old(self).quota,
    {
        self.life.guard()?;
        Ok(Command::GetGlobal(name.to_owned()))
    }

    /// Has a module defined.
    pub fn begin_register_module(&mut self, name: &str, module: ScriptValue) -> (r: Result<
        Command,
        ScriptError,
    >)
        ensures
            !old(self).life.initialized ==> old(self).life.failed(
                final(self).life,
                r,
                old(self).life.complaint(": not initialized"@),
            ),
            old(self).life.initialized ==> final(self).life == old(self).life && (r matches Ok(
                Command::SetModule { name: n, value: v },
            ) && n@ == name@ && v == module),
            final(self).programs == old(self).programs,
            final(self).hooks == old(self).hooks,
            final(self).quota == old(self).quota,
    {
        self.life.guard()?;
        Ok(Command::SetModule { name: name.to_owned(), value: module })
    }

    /// Has a function of the script called.
    pub fn begin_call(&mut self, name: &str, args: Vec<ScriptValue>) -> (r: Result<
        Command,
        ScriptError,
    >)
        ensures
            !old(self).life.initialized ==> old(self).life.failed(
                final(self).life,
                r,
                old(self).life.complaint(": not initialized"@),
            ),
            old(self).life.initialized ==> final(self).life == old(self).life && (r matches Ok(
                Command::Call { name: n, args: a },
            ) && n@ == name@ && a == args),
            final(self).programs == old(self).programs,
            final(self).hooks == old(self).hooks,
            final(self).quota == old(self).quota,
    {
        self.life.guard()?;
        Ok(Command::Call { name: name.to_owned(), args })
    }

    /// Host functions cannot be registered: it always fails.
    pub fn register_function(&mut self) -> (r: Result<(), ScriptError>)
        ensures
            old(self).life.failed(
                final(self).life,
                r,
                old(self).life.complaint(
                    ": host functions are unavailable under the no-unsafe policy"@,
                ),
            ),
            final(self).programs == old(self).programs,
            final(self).hooks == old(self).hooks,
            final(self).quota == old(self).quota,
    {
        Err(self.life.complain(": host functions are unavailable under the no-unsafe policy"))
    }

    /// Takes whether a command reached the worker.
    pub fn sent(&mut self, reached: bool) -> (r: Result<(), ScriptError>)
        ensures
            reached ==> r is Ok && *final(self) == *old(self),
            !reached ==> old(self).life.failed(
                final(self).life,
                r,
                old(self).life.complaint(": worker unavailable"@),
            ) && *final(self) == (JsEngine { life: final(self).life, ..*old(self) }),
    {
        if !reached {
            return Err(self.life.complain(": worker unavailable"));
        }
        Ok(())
    }

    /// Settles the answer to a run under the budget `quota`, which may not have
    /// come. The run is over by the time it is found to have overrun its time.
    pub fn settle_run<T>(
        &mut self,
        answer: Option<Result<T, ScriptError>>,
        quota: &Quota,
        elapsed: u128,
    ) -> (r: Result<T, ScriptError>)
        ensures
            match answer {
                None => crate::script::error::fails(
                    r,
                    old(self).life.complaint(": worker unavailable"@),
                ) && *final(self) == *old(self),
                Some(Err(e)) => r == Err::<T, ScriptError>(e) && *final(self) == (JsEngine {
                    life: old(self).life.recording(Some(e)),
                    ..*old(self)
                }),
                Some(Ok(v)) => if quota.overran(elapsed) {
                    r == Err::<T, ScriptError>(ScriptError::QuotaExceeded) && *final(self) == (
                    JsEngine {
                        life: old(self).life.recording(Some(ScriptError::QuotaExceeded)),
                        ..*old(self)
                    })
                } else {
                    r == Ok::<T, ScriptError>(v) && *final(self) == (JsEngine {
                        life: old(self).life.recording(None),
                        ..*old(self)
                    })
                },
            },
    {
        match answer {
            None => Err(ScriptError::Failed(cat(self.life.label, ": worker unavailable"))),
            Some(Err(e)) => Err(self.life.fail(e)),
            Some(Ok(value)) => {
                if quota.is_overrun(elapsed) {
                    return Err(self.life.fail(ScriptError::QuotaExceeded));
                }
                self.life.clear_error();
                Ok(value)
            },
        }
    }

    /// Settles the answer to a command that is no run, which may not have come.
    pub fn settle<T>(&mut self, answer: Option<Result<T, ScriptError>>) -> (r: Result<
        T,
        ScriptError,
    >)
        ensures
            match answer {
                None => old(self).life.failed(
                    final(self).life,
                    r,
                    old(self).life.complaint(": worker unavailable"@),
                ) && *final(self) == (JsEngine { life: final(self).life, ..*old(self) }),
                Some(Err(e)) => r == Err::<T, ScriptError>(e) && *final(self) == (JsEngine {
                    life: old(self).life.recording(Some(e)),
                    ..*old(self)
                }),
                Some(Ok(v)) => r == Ok::<T, ScriptError>(v) && *final(self) == (JsEngine {
                    life: old(self).life.recording(None),
                    ..*old(self)
                }),
            },
    {
        match answer {
            None => Err(self.life.complain(": worker unavailable")),
            Some(Err(e)) => Err(self.life.fail(e)),
            Some(Ok(value)) => {
                self.life.clear_error();
                Ok(value)
            },
        }
    }
}

/// Makes an engine, not initialised.
pub fn factory<S, W, H>() -> (r: Result<JsEngine<S, W, H>, ScriptError>)
    ensures
        r is Ok,
        !r->Ok_0.life.initialized,
        r->Ok_0.life.label@ == "javascript engine"@,
        r->Ok_0.programs@ == Seq::<String>::empty(),
{
    Ok(JsEngine::new())
}

/// Registers the factory of the engine under its name. Where the name is taken
/// nothing happens.
pub fn register<F>(registry: &mut FactoryRegistry<F>, factory: F)
    ensures
        old(registry)@.contains_key(NAME@) ==> *final(registry) == *old(registry),
        !old(registry)@.contains_key(NAME@) ==> final(registry)@ == old(registry)@.insert(
            NAME@,
            factory,
        ),
{
    let _ = register_factory(registry, NAME, factory);
}

} // verus!
