//! What all engines keep beside their scripts: whether they are initialised,
//! the source they load from, the watches they run, and their last error.
use vstd::prelude::*;

use crate::script::engine::{ScriptLoader, ScriptWatcher};
use crate::script::error::ScriptError;
use crate::string_map::StringMap;
use crate::text::cat;

verus! {

/// The common state of an engine. `S` is whatever stands for a source, `W`
/// whatever stands for a running watch.
pub struct Lifecycle<S, W> {
    /// What the engine calls itself in its errors.
    pub label: &'static str,
    /// The engine is initialised and not closed.
    pub initialized: bool,
    /// The source that loads read through.
    pub bound: Option<S>,
    /// The running watches, by key.
    pub watchers: StringMap<W>,
    /// The last error, unless a success came after it.
    pub last_error: Option<ScriptError>,
}

impl<S, W> ScriptLoader<S> for Lifecycle<S, W> {
    open spec fn source(&self) -> Option<S> {
        self.bound
    }

    fn set_source(&mut self, source: Option<S>)
        ensures
            *final(self) == (Lifecycle { bound: source, ..*old(self) }),
    {
        self.bound = source;
    }

    fn get_source(&self) -> (r: &Option<S>) {
        &self.bound
    }
}

impl<S, W> ScriptWatcher<W> for Lifecycle<S, W> {
    open spec fn watches(&self) -> Map<Seq<char>, W> {
        self.watchers@
    }

    fn keep_watch(&mut self, key: &str, watch: W) -> (r: Option<W>)
        ensures
            final(self).last_error is None,
            final(self).label == old(self).label,
            final(self).initialized == old(self).initialized,
            final(self).bound == old(self).bound,
    {
        self.last_error = None;
        self.watchers.insert(key.to_owned(), watch)
    }

    fn stop_watch(&mut self, key: &str) -> (r: Option<W>)
        ensures
            final(self).last_error == old(self).last_error,
            final(self).label == old(self).label,
            final(self).initialized == old(self).initialized,
            final(self).bound == old(self).bound,
    {
        self.watchers.remove(key)
    }
}

/// Recording an error changes the last error and nothing else.
pub proof fn recording_changes_the_last_error_alone<S, W>(
    life: Lifecycle<S, W>,
    error: Option<ScriptError>,
)
    ensures
        life.recording(error).last_error == error,
        life.recording(error).label == life.label,
        life.recording(error).initialized == life.initialized,
        life.recording(error).bound == life.bound,
        life.recording(error).watchers == life.watchers,
        forall|after: Lifecycle<S, W>, r: Result<(), ScriptError>, message: Seq<char>| #[trigger]
            life.failed(after, r, message) ==> (r matches Err(e) && e.says(message)
                && after.last_error == Some(e) && after.initialized == life.initialized
                && after.bound == life.bound && after.watchers == life.watchers && after.label
                == life.label),
{
}

impl<S, W> Lifecycle<S, W> {
    /// The state with another last error.
    pub open spec fn recording(self, error: Option<ScriptError>) -> Self {
        Lifecycle { last_error: error, ..self }
    }

    /// A failure with this message leaves the state `after`: it is the last
    /// error, and nothing else changes.
    pub open spec fn failed<T>(
        self,
        after: Self,
        r: Result<T, ScriptError>,
        message: Seq<char>,
    ) -> bool {
        crate::script::error::fails(r, message) && after == self.recording(Some(r->Err_0))
    }

    /// The text of a complaint of this engine.
    pub open spec fn complaint(self, what: Seq<char>) -> Seq<char> {
        self.label@ + what
    }

    /// The state before the first initialisation.
    pub fn new(label: &'static str) -> (r: Self)
        ensures
            r.label == label,
            !r.initialized,
            r.bound is None,
            r.watchers@ == Map::<Seq<char>, W>::empty(),
            r.last_error is None,
    {
        Lifecycle {
            label,
            initialized: false,
            bound: None,
            watchers: StringMap::new(),
            last_error: None,
        }
    }

    /// Whether the engine is initialised and not closed.
    pub fn is_initialized(&self) -> (r: bool)
        ensures
            r == self.initialized,
    {
        self.initialized
    }

    /// The last error, unless a success came after it.
    pub fn last_error(&self) -> (r: Option<ScriptError>)
        ensures
            r == self.last_error,
    {
        match &self.last_error {
            Some(e) => Some(e.clone()),
            None => None,
        }
    }

    /// Forgets the last error.
    pub fn clear_error(&mut self)
        ensures
            *final(self) == old(self).recording(None),
    {
        self.last_error = None;
    }

    /// Records an error and hands it back.
    pub fn fail(&mut self, error: ScriptError) -> (r: ScriptError)
        ensures
            r == error,
            *final(self) == old(self).recording(Some(error)),
    {
        self.last_error = Some(error.clone());
        error
    }

    /// Records the failure whose message is the label and `what`.
    pub fn complain(&mut self, what: &str) -> (r: ScriptError)
        ensures
            r.says(old(self).complaint(what@)),
            *final(self) == old(self).recording(Some(r)),
    {
        let message = cat(self.label, what);
        self.fail(ScriptError::Failed(message))
    }

    /// Refuses unless the engine is initialised.
    pub fn guard(&mut self) -> (r: Result<(), ScriptError>)
        ensures
            old(self).initialized ==> r is Ok && *final(self) == *old(self),
            !old(self).initialized ==> old(self).failed(
                *final(self),
                r,
                old(self).complaint(": not initialized"@),
            ),
    {
        if self.initialized {
            return Ok(());
        }
        Err(self.complain(": not initialized"))
    }

    /// Marks the engine as initialised. Refuses where it is already.
    pub fn begin_init(&mut self) -> (r: Result<(), ScriptError>)
        ensures
            old(self).initialized ==> old(self).failed(
                *final(self),
                r,
                old(self).complaint(": already initialized"@),
            ),
            !old(self).initialized ==> r is Ok && *final(self) == (Lifecycle {
                initialized: true,
                ..*old(self)
            }),
    {
        if self.initialized {
            return Err(self.complain(": already initialized"));
        }
        self.initialized = true;
        Ok(())
    }

    /// Refuses unless the engine is initialised and has a source to load from.
    pub fn guard_source(&mut self) -> (r: Result<(), ScriptError>)
        ensures
            !old(self).initialized ==> old(self).failed(
                *final(self),
                r,
                old(self).complaint(": not initialized"@),
            ),
            old(self).initialized && old(self).bound is None ==> old(self).failed(
                *final(self),
                r,
                old(self).complaint(": no source bound"@),
            ),
            old(self).initialized && old(self).bound is Some ==> r is Ok
                && *final(self) == *old(self),
    {
        self.guard()?;
        if self.bound.is_none() {
            return Err(self.complain(": no source bound"));
        }
        Ok(())
    }

    /// Takes what the source answered: a failure is recorded and passed on.
    pub fn fetched<T>(&mut self, answer: Result<T, ScriptError>) -> (r: Result<T, ScriptError>)
        ensures
            r == answer,
            *final(self) == (match answer {
                Ok(_) => *old(self),
                Err(e) => old(self).recording(Some(e)),
            }),
    {
        match answer {
            Ok(value) => Ok(value),
            Err(e) => Err(self.fail(e)),
        }
    }

    /// Settles an operation: a success forgets the last error, a failure is
    /// recorded with `what` in front of its cause.
    pub fn settle<T>(&mut self, what: &str, outcome: Result<T, String>) -> (r: Result<
        T,
        ScriptError,
    >)
        ensures
            match outcome {
                Ok(v) => r == Ok::<T, ScriptError>(v) && *final(self) == old(self).recording(None),
                Err(cause) => old(self).failed(
                    *final(self),
                    r,
                    old(self).complaint(what@ + cause@),
                ),
            },
    {
        match outcome {
            Ok(value) => {
                self.last_error = None;
                Ok(value)
            },
            Err(cause) => {
                let text = cat(what, cause.as_str());
                Err(self.complain(text.as_str()))
            },
        }
    }

    /// Takes what opening a watch came to. A failure is recorded and passed on.
    /// A watch needs the engine it reloads to be alive.
    pub fn watch_opened(&mut self, answer: Result<(), ScriptError>, alive: bool) -> (r: Result<
        (),
        ScriptError,
    >)
        ensures
            answer is Err ==> r == answer && *final(self) == old(self).recording(
                Some(answer->Err_0),
            ),
            answer is Ok && !alive ==> old(self).failed(
                *final(self),
                r,
                old(self).complaint(": engine handle unavailable"@),
            ),
            answer is Ok && alive ==> r is Ok && *final(self) == *old(self),
    {
        if let Err(e) = answer {
            return Err(self.fail(e));
        }
        if !alive {
            return Err(self.complain(": engine handle unavailable"));
        }
        Ok(())
    }

    /// Closes the engine: no source, no last error, and no watches; those that
    /// ran are handed back, to be ended.
    pub fn close(&mut self) -> (r: Vec<W>)
        ensures
            !final(self).initialized,
            final(self).label == old(self).label,
            final(self).bound is None,
            final(self).last_error is None,
            final(self).watchers@ == Map::<Seq<char>, W>::empty(),
            r@.len() == old(self).watchers.keys().len(),
            forall|i: int|
                0 <= i < r@.len()
                    ==> #[trigger] r@[i] == old(self).watchers@[old(self).watchers.keys()[i]],
    {
        let ended = self.watchers.drain();
        self.initialized = false;
        self.bound = None;
        self.last_error = None;
        ended
    }
}

} // verus!
