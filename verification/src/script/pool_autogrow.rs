//! Engines that are made as they are asked for, up to a bound, and lent out
//! one at a time.
use vstd::prelude::*;

use crate::script::error::ScriptError;
use crate::script::pool::BuildFailure;
use crate::text::{cat, decimal_text};

verus! {

/// What came of asking a growing pool for an engine.
pub enum Growth<E> {
    /// The pool is closed.
    Refused(ScriptError),
    /// An engine, lent to the caller.
    Lent(E),
    /// Make an engine; room for it is set aside.
    Make,
    /// There is no room for another. Wait for one to come back, and ask again.
    Wait,
}

/// A pool that grows as engines are asked for. `E` is whatever stands for an
/// engine.
pub struct AutoGrowEnginePool<E> {
    idle: Vec<E>,
    total: usize,
    max: usize,
    closed: bool,
}

impl<E> AutoGrowEnginePool<E> {
    /// The engines that are not lent out, the next to be lent first.
    pub closed spec fn idle(&self) -> Seq<E> {
        self.idle@
    }

    /// The number of engines there are, lent out or not.
    pub closed spec fn total(&self) -> nat {
        self.total as nat
    }

    /// The number of engines there can be.
    pub closed spec fn max(&self) -> nat {
        self.max as nat
    }

    /// The pool is closed.
    pub closed spec fn shut(&self) -> bool {
        self.closed
    }

    /// With `lent` engines out, or being made, none is missing and none too
    /// many.
    pub open spec fn balanced(&self, lent: nat) -> bool {
        !self.shut() && self.idle().len() + lent == self.total()
    }

    #[verifier::type_invariant]
    spec fn bounded(&self) -> bool {
        self.total <= self.max && self.idle@.len() <= self.max && (self.closed ==> self.idle@.len()
            == 0)
    }

    /// The number of engines there are, lent out or not: never more than there
    /// can be.
    pub fn live(&self) -> (r: usize)
        ensures
            r == self.total(),
            self.total() <= self.max(),
    {
        proof {
            use_type_invariant(self);
        }
        self.total
    }

    /// Lends the engine that has been idle longest, or has one made while there
    /// is room for it. A closed pool does neither.
    pub fn acquire(&mut self) -> (r: Growth<E>)
        ensures
            final(self).max() == old(self).max(),
            final(self).shut() == old(self).shut(),
            final(self).total() <= final(self).max(),
            match r {
                Growth::Refused(e) => old(self).shut() && e.says(
                    "script engine: engine pool closed"@,
                ) && *final(self) == *old(self),
                Growth::Lent(engine) => !old(self).shut() && old(self).idle().len() > 0 && engine
                    == old(self).idle()[0] && final(self).idle() == old(self).idle().skip(1)
                    && final(self).total() == old(self).total(),
                Growth::Make => !old(self).shut() && old(self).idle().len() == 0
                    && old(self).total() < old(self).max()
                    && final(self).total() == old(self).total() + 1
                    && final(self).idle() == old(self).idle(),
                Growth::Wait => !old(self).shut() && old(self).idle().len() == 0
                    && old(self).total() == old(self).max() && *final(self) == *old(self),
            },
            forall|lent: nat|
                (r is Lent || r is Make) && old(self).balanced(lent)
                    ==> #[trigger] final(self).balanced(lent + 1),
    {
        proof {
            use_type_invariant(&*self);
        }
        if self.closed {
            return Growth::Refused(
                ScriptError::Failed("script engine: engine pool closed".to_owned()),
            );
        }
        if self.idle.len() > 0 {
            let ghost before = self.idle@;
            let mut idle: Vec<E> = Vec::new();
            std::mem::swap(&mut idle, &mut self.idle);
            let engine = idle.remove(0);
            self.idle = idle;
            assert(self.idle@ =~= before.skip(1));
            return Growth::Lent(engine);
        }
        if self.total < self.max {
            self.total = self.total + 1;
            return Growth::Make;
        }
        Growth::Wait
    }

    /// Takes what making an engine came to. Where it failed, the room that was
    /// set aside is free again.
    pub fn made(&mut self, outcome: Result<E, ScriptError>) -> (r: Result<E, ScriptError>)
        ensures
            r == outcome,
            final(self).idle() == old(self).idle(),
            final(self).max() == old(self).max(),
            final(self).shut() == old(self).shut(),
            final(self).total() == (if outcome is Err && old(self).total() > 0 {
                (old(self).total() - 1) as nat
            } else {
                old(self).total()
            }),
            forall|lent: nat|
                #![trigger old(self).balanced(lent)]
                outcome is Err && old(self).balanced(lent) && lent > 0 ==> final(self).balanced(
                    (lent - 1) as nat,
                ),
    {
        proof {
            use_type_invariant(&*self);
        }
        if outcome.is_err() && self.total > 0 {
            self.total = self.total - 1;
        }
        outcome
    }

    /// Takes an engine back. It is handed out again, to be closed, where the
    /// pool is closed or has as many idle engines as there can be; while every
    /// engine that comes back was lent, the latter does not happen.
    pub fn release(&mut self, engine: E) -> (r: Option<E>)
        ensures
            final(self).max() == old(self).max(),
            final(self).shut() == old(self).shut(),
            if old(self).shut() {
                r == Some(engine) && *final(self) == *old(self)
            } else if old(self).idle().len() >= old(self).max() {
                r == Some(engine) && final(self).idle() == old(self).idle() && final(self).total()
                    == (if old(self).total() > 0 {
                    (old(self).total() - 1) as nat
                } else {
                    0
                })
            } else {
                r is None && final(self).idle() == old(self).idle().push(engine)
                    && final(self).total() == old(self).total()
            },
            forall|lent: nat|
                #![trigger old(self).balanced(lent)]
                old(self).balanced(lent) && lent > 0 ==> r is None && final(self).balanced(
                    (lent - 1) as nat,
                ),
    {
        proof {
            use_type_invariant(&*self);
        }
        if self.closed {
            return Some(engine);
        }
        if self.idle.len() >= self.max {
            if self.total > 0 {
                self.total = self.total - 1;
            }
            return Some(engine);
        }
        let mut idle: Vec<E> = Vec::new();
        std::mem::swap(&mut idle, &mut self.idle);
        idle.push(engine);
        self.idle = idle;
        None
    }

    /// Closes the pool. The idle engines are handed out, to be closed; those
    /// that are lent follow as they come back. Closing again does nothing.
    pub fn close(&mut self) -> (r: Vec<E>)
        ensures
            final(self).shut(),
            final(self).max() == old(self).max(),
            final(self).total() == old(self).total(),
            final(self).idle() == Seq::<E>::empty(),
            r@ == old(self).idle(),
            old(self).shut() ==> r@.len() == 0,
    {
        proof {
            use_type_invariant(&*self);
        }
        let mut idle: Vec<E> = Vec::new();
        std::mem::swap(&mut idle, &mut self.idle);
        self.closed = true;
        idle
    }
}

/// The complaint about a pool's sizes.
pub open spec fn sizes_text(initial: nat, max: nat) -> Seq<char> {
    "script engine: invalid sizes: initial="@ + crate::text::decimal(initial) + " max="@
        + crate::text::decimal(max)
}

/// Refuses to make engines of a type without a name.
pub fn check_type(typ: &str) -> (r: Result<(), ScriptError>)
    ensures
        typ@.len() == 0 ==> crate::script::error::fails(r, "engine type cannot be empty"@),
        typ@.len() > 0 ==> r is Ok,
{
    if typ.is_empty() {
        return Err(ScriptError::Failed("engine type cannot be empty".to_owned()));
    }
    Ok(())
}

/// A growing pool in the making.
pub struct GrowBuild<E> {
    created: Vec<E>,
    initial: usize,
    max: usize,
}

impl<E> GrowBuild<E> {
    /// The engines made so far.
    pub closed spec fn created(&self) -> Seq<E> {
        self.created@
    }

    /// The number of engines wanted at once.
    pub closed spec fn initial(&self) -> nat {
        self.initial as nat
    }

    /// The number of engines there can be.
    pub closed spec fn max(&self) -> nat {
        self.max as nat
    }

    #[verifier::type_invariant]
    spec fn bounded(&self) -> bool {
        self.created@.len() <= self.initial <= self.max && self.max >= 1
    }

    /// Begins a pool with `initial` engines, to grow up to `max`.
    pub fn new(initial: usize, max: usize) -> (r: Result<Self, ScriptError>)
        ensures
            max < 1 || initial > max ==> crate::script::error::fails(
                r,
                sizes_text(initial as nat, max as nat),
            ),
            max >= 1 && initial <= max ==> r is Ok && r->Ok_0.initial() == initial
                && r->Ok_0.max() == max && r->Ok_0.created() == Seq::<E>::empty(),
    {
        if max < 1 || initial > max {
            let mut text = "script engine: invalid sizes: initial=".to_owned();
            let first = decimal_text(initial as u64);
            let second = decimal_text(max as u64);
            text.append(first.as_str());
            text.append(" max=");
            text.append(second.as_str());
            return Err(ScriptError::Failed(text));
        }
        Ok(GrowBuild { created: Vec::new(), initial, max })
    }

    /// Whether another engine is wanted.
    pub fn wants_more(&self) -> (r: bool)
        ensures
            r == (self.created().len() < self.initial()),
    {
        self.created.len() < self.initial
    }

    /// Adds an engine that is made and initialised.
    pub fn add_engine(&mut self, engine: E)
        requires
            old(self).created().len() < old(self).initial(),
        ensures
            final(self).created() == old(self).created().push(engine),
            final(self).initial() == old(self).initial(),
            final(self).max() == old(self).max(),
    {
        proof {
            use_type_invariant(&*self);
        }
        let mut created: Vec<E> = Vec::new();
        std::mem::swap(&mut created, &mut self.created);
        created.push(engine);
        self.created = created;
    }

    /// Gives up, the factory having failed: what was made is closed.
    pub fn factory_failed(self, error: &ScriptError) -> (r: BuildFailure<E>)
        ensures
            r.error.says("script engine: factory failed: "@ + error.text()),
            r.close@ == self.created(),
    {
        let cause = error.message();
        BuildFailure {
            error: ScriptError::Failed(cat("script engine: factory failed: ", cause.as_str())),
            close: self.created,
        }
    }

    /// The pool, once the engines wanted at once are there.
    pub fn finish(self) -> (r: AutoGrowEnginePool<E>)
        requires
            self.created().len() == self.initial(),
        ensures
            r.idle() == self.created(),
            r.total() == self.created().len(),
            r.max() == self.max(),
            !r.shut(),
            r.balanced(0),
    {
        proof {
            use_type_invariant(&self);
        }
        let total: usize = self.created.len();
        AutoGrowEnginePool { idle: self.created, total, max: self.max, closed: false }
    }
}

} // verus!
