//! What can go wrong with a script engine or a script source.
use vstd::prelude::*;

use crate::text::cat;

verus! {

/// A failure of a script engine or a script source.
#[derive(Debug, PartialEq, Eq)]
#[non_exhaustive]
pub enum ScriptError {
    /// The operation could not complete; the message carries the cause.
    Failed(String),
    /// The engine or source does not offer the capability asked for.
    CapabilityNotSupported,
    /// A run exceeded its budget.
    QuotaExceeded,
}

impl Clone for ScriptError {
    fn clone(&self) -> (r: Self)
        ensures
            r == *self,
    {
        match self {
            ScriptError::Failed(msg) => ScriptError::Failed(msg.clone()),
            ScriptError::CapabilityNotSupported => ScriptError::CapabilityNotSupported,
            ScriptError::QuotaExceeded => ScriptError::QuotaExceeded,
        }
    }
}

impl ScriptError {
    /// The error as a line of text.
    pub open spec fn text(&self) -> Seq<char> {
        match self {
            ScriptError::Failed(msg) => "script engine: operation failed: "@ + msg@,
            ScriptError::CapabilityNotSupported =>
                "script engine: capability not supported by this engine type"@,
            ScriptError::QuotaExceeded => "script engine: execution quota exceeded"@,
        }
    }

    /// It is a failure with this message.
    pub open spec fn says(&self, message: Seq<char>) -> bool {
        self matches ScriptError::Failed(msg) && msg@ == message
    }

    /// The error as a line of text.
    pub fn message(&self) -> (s: String)
        ensures
            s@ == self.text(),
    {
        match self {
            ScriptError::Failed(msg) => cat("script engine: operation failed: ", msg.as_str()),
            ScriptError::CapabilityNotSupported =>
                "script engine: capability not supported by this engine type".to_owned(),
            ScriptError::QuotaExceeded => "script engine: execution quota exceeded".to_owned(),
        }
    }
}

/// `r` is the failure with the message `message`.
pub open spec fn fails<T>(r: Result<T, ScriptError>, message: Seq<char>) -> bool {
    r matches Err(e) && e.says(message)
}

/// A failure is told from a success, and by its message from other failures.
pub proof fn failure_has_one_message<T>(
    r: Result<T, ScriptError>,
    message: Seq<char>,
    other: Seq<char>,
)
    ensures
        r is Ok ==> !fails(r, message),
        fails(r, message) && fails(r, other) ==> message == other,
        r matches Err(ScriptError::Failed(msg)) ==> (fails(r, message) <==> msg@ == message),
        r == Err::<T, ScriptError>(ScriptError::QuotaExceeded) || r == Err::<T, ScriptError>(
            ScriptError::CapabilityNotSupported,
        ) ==> !fails(r, message),
{
}

/// The last failure among some outcomes, success where there is none.
pub open spec fn last_failure_of(outcomes: Seq<Result<(), ScriptError>>) -> Result<(), ScriptError>
    decreases outcomes.len(),
{
    if outcomes.len() == 0 {
        Ok(())
    } else if outcomes.last() is Err {
        outcomes.last()
    } else {
        last_failure_of(outcomes.drop_last())
    }
}

/// Of some outcomes the last failure is reported, whatever succeeded after it;
/// only where all succeeded is there none.
pub proof fn last_failure_is_reported(outcomes: Seq<Result<(), ScriptError>>, k: int)
    requires
        -1 <= k < outcomes.len(),
        k >= 0 ==> outcomes[k] is Err,
        forall|i: int| k < i < outcomes.len() ==> (#[trigger] outcomes[i]) is Ok,
    ensures
        k >= 0 ==> last_failure_of(outcomes) == outcomes[k],
        k == -1 ==> last_failure_of(outcomes) is Ok,
    decreases outcomes.len(),
{
    if outcomes.len() > 0 && k < outcomes.len() - 1 {
        assert(outcomes[outcomes.len() - 1] is Ok);
        last_failure_is_reported(outcomes.drop_last(), k);
    }
}

/// What closing several engines comes to: every one of them is closed, and
/// the last failure is reported.
pub fn last_failure(outcomes: &Vec<Result<(), ScriptError>>) -> (r: Result<(), ScriptError>)
    ensures
        r == last_failure_of(outcomes@),
{
    let mut i: usize = outcomes.len();
    assert(outcomes@.take(i as int) =~= outcomes@);
    while i > 0
        invariant
            i <= outcomes@.len(),
            last_failure_of(outcomes@) == last_failure_of(outcomes@.take(i as int)),
        decreases i,
    {
        i -= 1;
        proof {
            assert(outcomes@.take(i + 1).last() == outcomes@[i as int]);
            assert(outcomes@.take(i + 1).drop_last() =~= outcomes@.take(i as int));
        }
        if let Err(e) = &outcomes[i] {
            return Err(e.clone());
        }
    }
    Ok(())
}

} // verus!
