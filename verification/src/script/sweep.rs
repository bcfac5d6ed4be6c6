//! Doing one thing after another until the first failure.
use vstd::prelude::*;

use crate::script::error::ScriptError;

verus! {

/// A row of operations that is under way: how many there are, and what those
/// that succeeded gave.
pub struct Sweep<T> {
    total: usize,
    results: Vec<T>,
}

/// What a row of operations comes to: the first failure, or what all of them
/// gave, in their order.
pub open spec fn swept<T>(outcomes: Seq<Result<T, ScriptError>>) -> Result<Seq<T>, ScriptError>
    decreases outcomes.len(),
{
    if outcomes.len() == 0 {
        Ok(Seq::empty())
    } else {
        match swept(outcomes.drop_last()) {
            Err(e) => Err(e),
            Ok(done) => match outcomes.last() {
                Err(e) => Err(e),
                Ok(v) => Ok(done.push(v)),
            },
        }
    }
}

impl<T> Sweep<T> {
    /// The number of operations.
    pub closed spec fn goal(&self) -> nat {
        self.total as nat
    }

    /// What the operations so far gave.
    pub closed spec fn done(&self) -> Seq<T> {
        self.results@
    }

    #[verifier::type_invariant]
    spec fn within(&self) -> bool {
        self.results@.len() <= self.total
    }

    /// A row of `total` operations, before the first.
    pub fn new(total: usize) -> (r: Self)
        ensures
            r.goal() == total,
            r.done() == Seq::<T>::empty(),
    {
        Sweep { total, results: Vec::new() }
    }

    /// The operation that is next.
    pub fn next(&self) -> (r: Option<usize>)
        ensures
            match r {
                Some(i) => i == self.done().len() && i < self.goal(),
                None => self.done().len() == self.goal(),
            },
    {
        proof {
            use_type_invariant(self);
        }
        if self.results.len() < self.total {
            Some(self.results.len())
        } else {
            None
        }
    }

    /// Takes the outcome of the next operation. A failure is passed on, and ends
    /// the row.
    pub fn took(&mut self, outcome: Result<T, ScriptError>) -> (r: Result<(), ScriptError>)
        requires
            old(self).done().len() < old(self).goal(),
        ensures
            final(self).goal() == old(self).goal(),
            match outcome {
                Ok(v) => r is Ok && final(self).done() == old(self).done().push(v),
                Err(e) => r == Err::<(), ScriptError>(e) && final(self).done() == old(self).done(),
            },
    {
        match outcome {
            Ok(value) => {
                let mut results: Vec<T> = Vec::new();
                std::mem::swap(&mut results, &mut self.results);
                results.push(value);
                self.results = results;
                Ok(())
            },
            Err(e) => Err(e),
        }
    }

    /// What the operations gave.
    pub fn finish(self) -> (r: Vec<T>)
        ensures
            r@ == self.done(),
    {
        self.results
    }
}

/// Taking outcomes one by one gives what the whole row of them comes to: one
/// more success is added at the end, the first failure is the answer, and what
/// would come after it does not count.
pub proof fn sweep_is_step_by_step<T>(
    before: Seq<Result<T, ScriptError>>,
    outcome: Result<T, ScriptError>,
)
    ensures
        swept(before) is Err ==> swept(before.push(outcome)) == swept(before),
        swept(before) is Ok && outcome is Err ==> swept(before.push(outcome)) == Err::<
            Seq<T>,
            ScriptError,
        >(outcome->Err_0),
        swept(before) is Ok && outcome is Ok ==> swept(before.push(outcome)) == Ok::<
            Seq<T>,
            ScriptError,
        >(swept(before)->Ok_0.push(outcome->Ok_0)),
{
    assert(before.push(outcome).drop_last() =~= before);
}

/// A row in which everything succeeds gives each outcome in its place; else the
/// first failure is the answer.
pub proof fn row_gives_each_outcome_in_its_place<T>(outcomes: Seq<Result<T, ScriptError>>, k: int)
    requires
        0 <= k <= outcomes.len(),
        forall|i: int| 0 <= i < k ==> (#[trigger] outcomes[i]) is Ok,
        k < outcomes.len() ==> outcomes[k] is Err,
    ensures
        k < outcomes.len() ==> swept(outcomes) == Err::<Seq<T>, ScriptError>(outcomes[k]->Err_0),
        k == outcomes.len() ==> (swept(outcomes) matches Ok(l) && l.len() == outcomes.len()
            && forall|i: int|
            #![trigger outcomes[i]]
            0 <= i < outcomes.len() ==> l[i] == outcomes[i]->Ok_0),
    decreases outcomes.len(),
{
    if outcomes.len() > 0 {
        let head = outcomes.drop_last();
        let n = outcomes.len() - 1;
        if k < n {
            row_gives_each_outcome_in_its_place(head, k);
        } else {
            row_gives_each_outcome_in_its_place(head, n);
            if k == outcomes.len() {
                assert(outcomes[n] is Ok);
                assert forall|i: int|
                    #![trigger outcomes[i]]
                    0 <= i < outcomes.len() implies swept(outcomes)->Ok_0[i] == outcomes[i]->Ok_0 by {
                    if i < n {
                        assert(head[i] == outcomes[i]);
                    }
                }
            }
        }
    }
}

} // verus!
