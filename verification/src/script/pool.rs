//! A fixed number of engines, lent out one at a time.
use vstd::prelude::*;

use crate::script::error::ScriptError;
use crate::script::factory::factory_missing;
use crate::text::cat;

verus! {

/// What came of asking a pool for an engine.
pub enum Acquired<E> {
    /// The pool is closed.
    Refused(ScriptError),
    /// An engine, lent to the caller.
    Lent(E),
    /// All engines are lent out. Wait for one to come back, and ask again.
    Wait,
}

/// A pool of engines. `E` is whatever stands for an engine.
pub struct EnginePool<E> {
    idle: Vec<E>,
    size: usize,
    closed: bool,
}

impl<E> EnginePool<E> {
    /// The engines that are not lent out, the next to be lent first.
    pub closed spec fn idle(&self) -> Seq<E> {
        self.idle@
    }

    /// The number of engines that the pool was made with.
    pub closed spec fn size(&self) -> nat {
        self.size as nat
    }

    /// The pool is closed.
    pub closed spec fn shut(&self) -> bool {
        self.closed
    }

    /// With `lent` engines out, none is missing and none too many.
    pub open spec fn balanced(&self, lent: nat) -> bool {
        !self.shut() && self.idle().len() + lent == self.size()
    }

    #[verifier::type_invariant]
    spec fn bounded(&self) -> bool {
        self.idle@.len() <= self.size && (self.closed ==> self.idle@.len() == 0)
    }

    /// Lends the engine that has been idle longest. A closed pool lends
    /// nothing.
    pub fn acquire(&mut self) -> (r: Acquired<E>)
        ensures
            final(self).size() == old(self).size(),
            final(self).shut() == old(self).shut(),
            match r {
                Acquired::Refused(e) => old(self).shut() && e.says("engine pool closed"@)
                    && final(self).idle() == old(self).idle(),
                Acquired::Lent(engine) => !old(self).shut() && old(self).idle().len() > 0 && engine
                    == old(self).idle()[0] && final(self).idle() == old(self).idle().skip(1),
                Acquired::Wait => !old(self).shut() && old(self).idle().len() == 0
                    && final(self).idle() == old(self).idle(),
            },
            forall|lent: nat|
                r is Lent && old(self).balanced(lent) ==> #[trigger] final(self).balanced(lent + 1),
    {
        proof {
            use_type_invariant(&*self);
        }
        if self.closed {
            return Acquired::Refused(ScriptError::Failed("engine pool closed".to_owned()));
        }
        if self.idle.len() == 0 {
            return Acquired::Wait;
        }
        let ghost before = self.idle@;
        let mut idle: Vec<E> = Vec::new();
        std::mem::swap(&mut idle, &mut self.idle);
        let engine = idle.remove(0);
        self.idle = idle;
        assert(self.idle@ =~= before.skip(1));
        Acquired::Lent(engine)
    }

    /// Takes an engine back. It is handed out again, to be closed, where the
    /// pool is closed or has all its engines; while every engine that comes
    /// back was lent, that does not happen to an open pool.
    pub fn release(&mut self, engine: E) -> (r: Option<E>)
        ensures
            final(self).size() == old(self).size(),
            final(self).shut() == old(self).shut(),
            if old(self).shut() || old(self).idle().len() >= old(self).size() {
                r == Some(engine) && final(self).idle() == old(self).idle()
            } else {
                r is None && final(self).idle() == old(self).idle().push(engine)
            },
            forall|lent: nat|
                #![trigger old(self).balanced(lent)]
                old(self).balanced(lent) && lent > 0 ==> r is None && final(self).balanced(
                    (lent - 1) as nat,
                ),
    {
        if self.closed || self.idle.len() >= self.size {
            return Some(engine);
        }
        let mut idle: Vec<E> = Vec::new();
        std::mem::swap(&mut idle, &mut self.idle);
        idle.push(engine);
        self.idle = idle;
        None
    }

    /// Closes the pool. The idle engines are handed out, to be closed; those
    /// that are lent follow as they come back. Closing again does nothing.
    pub fn close(&mut self) -> (r: Vec<E>)
        ensures
            final(self).shut(),
            final(self).size() == old(self).size(),
            final(self).idle() == Seq::<E>::empty(),
            r@ == old(self).idle(),
            old(self).shut() ==> r@.len() == 0,
    {
        proof {
            use_type_invariant(&*self);
        }
        let mut idle: Vec<E> = Vec::new();
        std::mem::swap(&mut idle, &mut self.idle);
        self.closed = true;
        idle
    }

    /// Whether the pool is closed.
    pub fn is_closed(&self) -> (r: bool)
        ensures
            r == self.shut(),
    {
        self.closed
    }

    /// The number of engines that the pool was made with.
    pub fn capacity(&self) -> (r: usize)
        ensures
            r == self.size(),
    {
        self.size
    }
}

/// The failure to initialise an engine of a pool.
pub fn pool_init_failed(error: &ScriptError) -> (r: ScriptError)
    ensures
        r.says("engine pool: init failed: "@ + error.text()),
{
    let cause = error.message();
    ScriptError::Failed(cat("engine pool: init failed: ", cause.as_str()))
}

/// A pool that could not be made: why, and the engines to close.
pub struct BuildFailure<E> {
    pub error: ScriptError,
    pub close: Vec<E>,
}

/// A pool in the making.
pub struct PoolBuild<E> {
    created: Vec<E>,
    size: usize,
}

impl<E> PoolBuild<E> {
    /// The engines made so far.
    pub closed spec fn created(&self) -> Seq<E> {
        self.created@
    }

    /// The number of engines wanted.
    pub closed spec fn size(&self) -> nat {
        self.size as nat
    }

    #[verifier::type_invariant]
    spec fn bounded(&self) -> bool {
        self.created@.len() <= self.size && self.size >= 1
    }

    /// Begins a pool of `size` engines of the type `typ`, for which there may
    /// be a factory or not.
    pub fn new(size: usize, typ: &str, registered: bool) -> (r: Result<Self, ScriptError>)
        ensures
            size < 1 ==> crate::script::error::fails(r, "engine pool: pool size must be >= 1"@),
            size >= 1 && !registered ==> crate::script::error::fails(
                r,
                crate::script::factory::factory_text(typ@, " not registered"@),
            ),
            size >= 1 && registered ==> r is Ok && r->Ok_0.size() == size && r->Ok_0.created()
                == Seq::<E>::empty(),
    {
        if size < 1 {
            return Err(ScriptError::Failed("engine pool: pool size must be >= 1".to_owned()));
        }
        if !registered {
            return Err(factory_missing(typ));
        }
        Ok(PoolBuild { created: Vec::new(), size })
    }

    /// Whether another engine is wanted.
    pub fn wants_more(&self) -> (r: bool)
        ensures
            r == (self.created().len() < self.size()),
    {
        self.created.len() < self.size
    }

    /// Adds an engine that is made and initialised.
    pub fn add_engine(&mut self, engine: E)
        requires
            old(self).created().len() < old(self).size(),
        ensures
            final(self).created() == old(self).created().push(engine),
            final(self).size() == old(self).size(),
    {
        proof {
            use_type_invariant(&*self);
        }
        let mut created: Vec<E> = Vec::new();
        std::mem::swap(&mut created, &mut self.created);
        created.push(engine);
        self.created = created;
    }

    /// Gives up, the factory having failed: what was made is closed.
    pub fn factory_failed(self, error: &ScriptError) -> (r: BuildFailure<E>)
        ensures
            r.error.says("engine pool: factory failed: "@ + error.text()),
            r.close@ == self.created(),
    {
        let cause = error.message();
        BuildFailure {
            error: ScriptError::Failed(cat("engine pool: factory failed: ", cause.as_str())),
            close: self.created,
        }
    }

    /// Gives up, an engine having failed to initialise: it is closed, and what
    /// was made before it.
    pub fn init_failed(self, engine: E, error: &ScriptError) -> (r: BuildFailure<E>)
        ensures
            r.error.says("engine pool: init failed: "@ + error.text()),
            r.close@ == seq![engine] + self.created(),
    {
        let ghost made = self.created@;
        let mut close = self.created;
        close.insert(0, engine);
        assert(close@ =~= seq![engine] + made);
        BuildFailure { error: pool_init_failed(error), close }
    }

    /// The pool, once all engines are there.
    pub fn finish(self) -> (r: EnginePool<E>)
        requires
            self.created().len() == self.size(),
        ensures
            r.idle() == self.created(),
            r.size() == self.size(),
            !r.shut(),
            r.balanced(0),
    {
        EnginePool { idle: self.created, size: self.size, closed: false }
    }
}

/// What initialising a pool's engines anew does next.
#[derive(Clone, Copy, Debug, PartialEq, Eq, Structural)]
pub enum ReinitStep {
    /// Borrow another engine.
    Acquire,
    /// Initialise the borrowed engine of this number.
    Init(usize),
    /// Give all engines back.
    Release,
}

/// The engines of a pool being initialised anew: all are borrowed first, then
/// initialised one by one, then given back. The first failure ends it, and
/// every borrowed engine is closed.
pub struct Reinit<E> {
    engines: Vec<E>,
    done: usize,
    size: usize,
}

impl<E> Reinit<E> {
    /// The engines borrowed so far.
    pub closed spec fn borrowed(&self) -> Seq<E> {
        self.engines@
    }

    /// The number of engines initialised.
    pub closed spec fn done(&self) -> nat {
        self.done as nat
    }

    /// The number of engines in the pool.
    pub closed spec fn size(&self) -> nat {
        self.size as nat
    }

    /// What comes next.
    pub open spec fn upcoming(&self) -> ReinitStep {
        if self.borrowed().len() < self.size() {
            ReinitStep::Acquire
        } else if self.done() < self.size() {
            ReinitStep::Init(self.done() as usize)
        } else {
            ReinitStep::Release
        }
    }

    #[verifier::type_invariant]
    spec fn bounded(&self) -> bool {
        self.engines@.len() <= self.size && self.done <= self.size && (self.engines@.len()
            < self.size ==> self.done == 0)
    }

    /// Begins with a pool of `size` engines.
    pub fn new(size: usize) -> (r: Self)
        ensures
            r.borrowed() == Seq::<E>::empty(),
            r.done() == 0,
            r.size() == size,
    {
        Reinit { engines: Vec::new(), done: 0, size }
    }

    /// What comes next.
    pub fn next(&self) -> (r: ReinitStep)
        ensures
            r == self.upcoming(),
            r matches ReinitStep::Init(i) ==> i < self.borrowed().len(),
            r is Acquire <==> self.borrowed().len() < self.size(),
            r is Init <==> self.borrowed().len() == self.size() && self.done() < self.size(),
            r matches ReinitStep::Init(i) ==> i == self.done(),
            r is Release ==> self.borrowed().len() == self.size() && self.done() == self.size(),
    {
        proof {
            use_type_invariant(self);
        }
        if self.engines.len() < self.size {
            ReinitStep::Acquire
        } else if self.done < self.size {
            ReinitStep::Init(self.done)
        } else {
            ReinitStep::Release
        }
    }

    /// A borrowed engine.
    pub fn engine(&self, i: usize) -> (r: &E)
        requires
            i < self.borrowed().len(),
        ensures
            *r == self.borrowed()[i as int],
    {
        &self.engines[i]
    }

    /// Takes what borrowing an engine came to.
    pub fn acquired(self, outcome: Result<E, ScriptError>) -> (r: Result<Self, BuildFailure<E>>)
        requires
            self.upcoming() is Acquire,
        ensures
            match outcome {
                Ok(engine) => r matches Ok(next) && next.borrowed() == self.borrowed().push(engine)
                    && next.done() == self.done() && next.size() == self.size(),
                Err(e) => r matches Err(failure) && failure.error == e && failure.close@
                    == self.borrowed(),
            },
    {
        proof {
            use_type_invariant(&self);
        }
        match outcome {
            Ok(engine) => {
                let mut engines = self.engines;
                engines.push(engine);
                Ok(Reinit { engines, done: self.done, size: self.size })
            },
            Err(error) => Err(BuildFailure { error, close: self.engines }),
        }
    }

    /// Takes what initialising the next engine came to.
    pub fn initialised(self, outcome: Result<(), ScriptError>) -> (r: Result<Self, BuildFailure<E>>)
        requires
            self.upcoming() is Init,
        ensures
            match outcome {
                Ok(_) => r matches Ok(next) && next.borrowed() == self.borrowed() && next.done()
                    == self.done() + 1 && next.size() == self.size(),
                Err(e) => r matches Err(failure) && failure.error.says(
                    "engine pool: init failed: "@ + e.text(),
                ) && failure.close@ == self.borrowed(),
            },
    {
        proof {
            use_type_invariant(&self);
        }
        match outcome {
            Ok(_) => Ok(Reinit { engines: self.engines, done: self.done + 1, size: self.size }),
            Err(error) => Err(
                BuildFailure { error: pool_init_failed(&error), close: self.engines },
            ),
        }
    }

    /// The engines to give back, once all are initialised.
    pub fn finish(self) -> (r: Vec<E>)
        requires
            self.upcoming() is Release,
        ensures
            r@ == self.borrowed(),
            r@.len() == self.size(),
    {
        proof {
            use_type_invariant(&self);
        }
        self.engines
    }
}

} // verus!
