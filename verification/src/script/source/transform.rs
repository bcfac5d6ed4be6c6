//! A source whose scripts go through functions before they reach the caller.
use vstd::prelude::*;

use crate::script::error::ScriptError;
use crate::text::{cat3, debug_quoted, decimal_text};

verus! {

/// A source and the functions that its scripts go through, in their order. `S`
/// is whatever stands for a source.
pub struct TransformSource<S, F> {
    inner: S,
    transforms: Vec<F>,
}

/// The complaint that the source failed to load.
pub open spec fn load_text(key: Seq<char>, cause: Seq<char>) -> Seq<char> {
    "transform source: load "@ + crate::text::debug_text(key) + ": "@ + cause
}

/// The complaint that a function failed.
pub open spec fn transform_text(index: nat, key: Seq<char>, cause: Seq<char>) -> Seq<char> {
    "transform source: transform["@ + crate::text::decimal(index) + "] for "@
        + crate::text::debug_text(key) + ": "@ + cause
}

/// The functions took the raw text through these steps.
pub open spec fn steps_hold<F: Fn(&str, String) -> Result<String, ScriptError>>(
    transforms: Seq<F>,
    key: &str,
    raw: String,
    steps: Seq<String>,
) -> bool {
    &&& 1 <= steps.len() <= transforms.len() + 1
    &&& steps[0] == raw
    &&& forall|i: int|
        0 <= i < steps.len() - 1 ==> call_ensures(
            #[trigger] transforms[i],
            (key, steps[i]),
            Ok::<String, ScriptError>(steps[i + 1]),
        )
}

/// `r` is what comes out: the last step once all functions are through, or the
/// failure of the function that stopped.
pub open spec fn transformed<F: Fn(&str, String) -> Result<String, ScriptError>>(
    transforms: Seq<F>,
    key: &str,
    steps: Seq<String>,
    r: Result<String, ScriptError>,
) -> bool {
    match r {
        Ok(code) => steps.len() == transforms.len() + 1 && code == steps.last(),
        Err(e) => {
            let at = steps.len() - 1;
            &&& at < transforms.len()
            &&& exists|cause: ScriptError|
                #![trigger cause.text()]
                call_ensures(
                    transforms[at],
                    (key, steps.last()),
                    Err::<String, ScriptError>(cause),
                ) && e.says(transform_text(at as nat, key@, cause.text()))
        },
    }
}

/// A function that is added runs once, after all others and only where they
/// came through: a course that stops before it is a course of the others, and
/// any other gives it what the others came to, and ends as it does.
pub proof fn added_function_runs_last<F: Fn(&str, String) -> Result<String, ScriptError>>(
    transforms: Seq<F>,
    added: F,
    key: &str,
    raw: String,
    steps: Seq<String>,
    r: Result<String, ScriptError>,
)
    requires
        steps_hold(transforms.push(added), key, raw, steps),
        transformed(transforms.push(added), key, steps, r),
    ensures
        steps.len() <= transforms.len() ==> r is Err && steps_hold(transforms, key, raw, steps)
            && transformed(transforms, key, steps, r),
        steps.len() > transforms.len() ==> {
            let before = steps.take(transforms.len() as int + 1);
            &&& steps_hold(transforms, key, raw, before)
            &&& transformed(transforms, key, before, Ok::<String, ScriptError>(before.last()))
            &&& match r {
                Ok(code) => call_ensures(
                    added,
                    (key, before.last()),
                    Ok::<String, ScriptError>(code),
                ),
                Err(e) => exists|cause: ScriptError|
                    #![trigger cause.text()]
                    call_ensures(added, (key, before.last()), Err::<String, ScriptError>(cause))
                        && e.says(transform_text(transforms.len(), key@, cause.text())),
            }
        },
{
    let all = transforms.push(added);
    let n = transforms.len() as int;
    assert(all[n] == added);
    if steps.len() <= n {
        assert forall|i: int| 0 <= i < steps.len() - 1 implies call_ensures(
            #[trigger] transforms[i],
            (key, steps[i]),
            Ok::<String, ScriptError>(steps[i + 1]),
        ) by {
            assert(all[i] == transforms[i]);
        }
        assert(all[steps.len() - 1] == transforms[steps.len() - 1]);
    } else {
        let before = steps.take(n + 1);
        assert forall|i: int| 0 <= i < before.len() - 1 implies call_ensures(
            #[trigger] transforms[i],
            (key, before[i]),
            Ok::<String, ScriptError>(before[i + 1]),
        ) by {
            assert(all[i] == transforms[i]);
        }
        assert(before.last() == steps[n]);
        if r is Ok {
            assert(call_ensures(
                all[n],
                (key, steps[n]),
                Ok::<String, ScriptError>(steps[n + 1]),
            ));
        } else {
            assert(steps.last() == steps[n]);
        }
    }
}

/// The function hands on what it is given.
pub open spec fn changes_nothing<F: Fn(&str, String) -> Result<String, ScriptError>>(
    f: F,
    key: &str,
) -> bool {
    forall|raw: String, r: Result<String, ScriptError>|
        #[trigger] call_ensures(f, (key, raw), r) ==> r == Ok::<String, ScriptError>(raw)
}

/// Adding a function that changes nothing changes no answer: every course with
/// it ends as a course without it.
pub proof fn idle_function_changes_no_answer<F: Fn(&str, String) -> Result<String, ScriptError>>(
    transforms: Seq<F>,
    added: F,
    key: &str,
    raw: String,
    steps: Seq<String>,
    r: Result<String, ScriptError>,
)
    requires
        changes_nothing(added, key),
        steps_hold(transforms.push(added), key, raw, steps),
        transformed(transforms.push(added), key, steps, r),
    ensures
        exists|before: Seq<String>| #[trigger]
            steps_hold(transforms, key, raw, before) && transformed(transforms, key, before, r),
{
    added_function_runs_last(transforms, added, key, raw, steps, r);
    if steps.len() > transforms.len() {
        let before = steps.take(transforms.len() as int + 1);
        assert(r is Ok);
        assert(r == Ok::<String, ScriptError>(before.last()));
        assert(steps_hold(transforms, key, raw, before) && transformed(
            transforms,
            key,
            before,
            r,
        ));
    }
}

impl<S, F: Fn(&str, String) -> Result<String, ScriptError>> TransformSource<S, F> {
    /// The source.
    pub closed spec fn origin(&self) -> S {
        self.inner
    }

    /// The functions, in the order in which they run.
    pub closed spec fn functions(&self) -> Seq<F> {
        self.transforms@
    }

    /// Puts a source and functions together. There must be a function.
    pub fn new(inner: S, transforms: Vec<F>) -> (r: Result<Self, ScriptError>)
        ensures
            transforms@.len() == 0 ==> crate::script::error::fails(
                r,
                "transform source: at least one transform function is required"@,
            ),
            transforms@.len() > 0 ==> r is Ok && r->Ok_0.origin() == inner && r->Ok_0.functions()
                == transforms@,
    {
        if transforms.len() == 0 {
            return Err(
                ScriptError::Failed(
                    "transform source: at least one transform function is required".to_owned(),
                ),
            );
        }
        Ok(TransformSource { inner, transforms })
    }

    /// Adds a function, to run last.
    pub fn then(self, transform: F) -> (r: Result<Self, ScriptError>)
        ensures
            r is Ok,
            r->Ok_0.origin() == self.origin(),
            r->Ok_0.functions() == self.functions().push(transform),
    {
        let mut transforms = self.transforms;
        transforms.push(transform);
        Ok(TransformSource { inner: self.inner, transforms })
    }

    /// The source.
    pub fn inner(&self) -> (r: &S)
        ensures
            *r == self.origin(),
    {
        &self.inner
    }

    /// Takes what the source answered to a load, through the functions: each
    /// gets what the one before it gave, and the first that fails ends it.
    pub fn loaded(&self, key: &str, answer: Result<String, ScriptError>) -> (r: Result<
        String,
        ScriptError,
    >)
        requires
            forall|i: int, text: String|
                0 <= i < self.functions().len() ==> #[trigger] call_requires(
                    self.functions()[i],
                    (key, text),
                ),
        ensures
            match answer {
                Err(e) => crate::script::error::fails(r, load_text(key@, e.text())),
                Ok(raw) => exists|steps: Seq<String>| #[trigger]
                    steps_hold(self.functions(), key, raw, steps) && transformed(
                        self.functions(),
                        key,
                        steps,
                        r,
                    ),
            },
    {
        let raw = match answer {
            Ok(raw) => raw,
            Err(e) => {
                let quoted = debug_quoted(key);
                let mut text = cat3("transform source: load ", quoted.as_str(), ": ");
                let cause = e.message();
                text.append(cause.as_str());
                return Err(ScriptError::Failed(text));
            },
        };
        let ghost first = raw;
        let ghost mut steps: Seq<String> = seq![raw];
        let mut current = raw;
        let mut i: usize = 0;
        while i < self.transforms.len()
            invariant
                i <= self.transforms@.len(),
                self.transforms@ == self.functions(),
                steps.len() == i + 1,
                steps.last() == current,
                steps_hold(self.functions(), key, first, steps),
                forall|j: int, text: String|
                    0 <= j < self.functions().len() ==> #[trigger] call_requires(
                        self.functions()[j],
                        (key, text),
                    ),
                answer == Ok::<String, ScriptError>(first),
            decreases self.transforms@.len() - i,
        {
            let transform = &self.transforms[i];
            assert(*transform == self.functions()[i as int]);
            let ghost given = current;
            match transform(key, current) {
                Ok(next) => {
                    proof {
                        let longer = steps.push(next);
                        assert forall|j: int| 0 <= j < longer.len() - 1 implies call_ensures(
                            #[trigger] self.functions()[j],
                            (key, longer[j]),
                            Ok::<String, ScriptError>(longer[j + 1]),
                        ) by {
                            if j < steps.len() - 1 {
                                assert(longer[j] == steps[j]);
                                assert(longer[j + 1] == steps[j + 1]);
                            }
                        }
                        steps = longer;
                    }
                    current = next;
                    i += 1;
                },
                Err(e) => {
                    let number = decimal_text(i as u64);
                    let quoted = debug_quoted(key);
                    let mut text = cat3("transform source: transform[", number.as_str(), "] for ");
                    text.append(quoted.as_str());
                    text.append(": ");
                    let cause = e.message();
                    text.append(cause.as_str());
                    let r: Result<String, ScriptError> = Err(ScriptError::Failed(text));
                    assert(call_ensures(
                        self.functions()[i as int],
                        (key, given),
                        Err::<String, ScriptError>(e),
                    ));
                    assert(r->Err_0.says(transform_text(i as nat, key@, e.text())));
                    assert(transformed(self.functions(), key, steps, r));
                    assert(steps_hold(self.functions(), key, answer->Ok_0, steps));
                    return r;
                },
            }
        }
        let r: Result<String, ScriptError> = Ok(current);
        assert(transformed(self.functions(), key, steps, r));
        r
    }

    /// Takes what the source answered to a watch.
    pub fn watched<W>(&self, answer: Result<W, ScriptError>) -> (r: Result<W, ScriptError>)
        ensures
            match answer {
                Err(ScriptError::CapabilityNotSupported) => crate::script::error::fails(
                    r,
                    "transform source: inner source does not implement watching"@,
                ),
                _ => r == answer,
            },
    {
        match answer {
            Err(ScriptError::CapabilityNotSupported) => Err(
                ScriptError::Failed(
                    "transform source: inner source does not implement watching".to_owned(),
                ),
            ),
            other => other,
        }
    }
}

/// The function that changes nothing.
pub fn identity_transform(_key: &str, raw: String) -> (r: Result<String, ScriptError>)
    ensures
        r == Ok::<String, ScriptError>(raw),
{
    Ok(raw)
}

} // verus!
