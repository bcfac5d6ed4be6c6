//! Several sources behind one: the first that has the script gives it.
use vstd::prelude::*;

use crate::script::error::ScriptError;
use crate::text::{cat3, debug_quoted, decimal_text, join};

verus! {

/// How sources are asked.
#[derive(Clone, Copy, Debug, PartialEq, Eq, Structural)]
pub enum MultiStrategy {
    /// One after the other.
    Fallback,
    /// All at once.
    FirstOk,
}

impl Default for MultiStrategy {
    fn default() -> (r: Self)
        ensures
            r == MultiStrategy::Fallback,
    {
        MultiStrategy::Fallback
    }
}

/// Several sources behind one. `S` is whatever stands for a source.
pub struct MultiSource<S> {
    sources: Vec<S>,
    strategy: MultiStrategy,
}

/// The complaint that every source failed, with the failures in the order in
/// which they came.
pub open spec fn all_failed_text(
    strategy: MultiStrategy,
    key: Seq<char>,
    failures: Seq<Seq<char>>,
) -> Seq<char> {
    let asked = match strategy {
        MultiStrategy::Fallback => "multi source(fallback): all sources failed for "@,
        MultiStrategy::FirstOk => "multi source(first-ok): all sources failed for "@,
    };
    asked + crate::text::debug_text(key) + ": "@ + crate::text::joined(failures, "; "@)
}

/// The complaint that no source can be watched.
pub open spec fn unwatched_text(failures: Seq<Seq<char>>) -> Seq<char> {
    if failures.len() == 0 {
        "multi source: none of the sub-sources implements watching"@
    } else {
        "multi source: no watcher available: "@ + crate::text::joined(failures, "; "@)
    }
}

impl<S> MultiSource<S> {
    /// The sources, in the order in which they are asked.
    pub closed spec fn parts(&self) -> Seq<S> {
        self.sources@
    }

    /// How they are asked.
    pub closed spec fn way(&self) -> MultiStrategy {
        self.strategy
    }

    /// There is a source.
    #[verifier::type_invariant]
    spec fn valid(&self) -> bool {
        self.sources@.len() > 0
    }

    /// Puts sources together. There must be one.
    pub fn new(strategy: MultiStrategy, sources: Vec<S>) -> (r: Result<Self, ScriptError>)
        ensures
            sources@.len() == 0 ==> crate::script::error::fails(
                r,
                "multi source: at least one source is required"@,
            ),
            sources@.len() > 0 ==> r is Ok && r->Ok_0.parts() == sources@ && r->Ok_0.way()
                == strategy,
    {
        if sources.len() == 0 {
            return Err(
                ScriptError::Failed("multi source: at least one source is required".to_owned()),
            );
        }
        Ok(MultiSource { sources, strategy })
    }

    /// Puts sources together, to be asked one after the other.
    pub fn new_fallback(sources: Vec<S>) -> (r: Result<Self, ScriptError>)
        ensures
            sources@.len() == 0 ==> crate::script::error::fails(
                r,
                "multi source: at least one source is required"@,
            ),
            sources@.len() > 0 ==> r is Ok && r->Ok_0.parts() == sources@ && r->Ok_0.way()
                == MultiStrategy::Fallback,
    {
        MultiSource::new(MultiStrategy::Fallback, sources)
    }

    /// Puts sources together, to be asked all at once.
    pub fn new_first_ok(sources: Vec<S>) -> (r: Result<Self, ScriptError>)
        ensures
            sources@.len() == 0 ==> crate::script::error::fails(
                r,
                "multi source: at least one source is required"@,
            ),
            sources@.len() > 0 ==> r is Ok && r->Ok_0.parts() == sources@ && r->Ok_0.way()
                == MultiStrategy::FirstOk,
    {
        MultiSource::new(MultiStrategy::FirstOk, sources)
    }

    /// The sources, in the order in which they are asked.
    pub fn sources(&self) -> (r: &Vec<S>)
        ensures
            r@ == self.parts(),
    {
        &self.sources
    }

    /// How they are asked.
    pub fn strategy(&self) -> (r: MultiStrategy)
        ensures
            r == self.way(),
    {
        self.strategy
    }

    /// Begins a load: says which sources to ask first.
    pub fn begin_load(&self) -> (r: (Load, LoadStep))
        ensures
            self.parts().len() > 0,
            r.0.wf(),
            r.0.way() == self.way(),
            r.0.sources() == self.parts().len(),
            r.0.failures() == Seq::<Seq<char>>::empty(),
            shows(r.1, first_asked(self.way(), self.parts().len())),
    {
        proof {
            use_type_invariant(self);
        }
        let sources: usize = self.sources.len();
        let to: usize = match self.strategy {
            MultiStrategy::Fallback => 1,
            MultiStrategy::FirstOk => sources,
        };
        let load = Load { strategy: self.strategy, sources, gathering: Gathering::new() };
        (load, LoadStep::Ask(0, to))
    }
}

/// How a load goes on.
pub enum LoadStep {
    /// Ask the sources from the one position up to the other.
    Ask(usize, usize),
    /// Wait for a further answer.
    Wait,
    /// This is the answer.
    Done(Result<String, ScriptError>),
}

/// How a load goes on, in texts.
#[verifier::ext_equal]
pub enum Next {
    /// Ask the sources from the one position up to the other.
    Ask(int, int),
    /// Wait for a further answer.
    Wait,
    /// The script is there.
    Found(String),
    /// The load failed, for this reason.
    Failed(Seq<char>),
}

/// The step says how the load goes on.
pub open spec fn shows(step: LoadStep, next: Next) -> bool {
    match step {
        LoadStep::Ask(from, to) => next == Next::Ask(from as int, to as int),
        LoadStep::Wait => next == Next::Wait,
        LoadStep::Done(Ok(code)) => next == Next::Found(code),
        LoadStep::Done(Err(e)) => next is Failed && e.says(next->Failed_0),
    }
}

/// A step says one thing: to ask the sources that are to be asked, to wait, or
/// what the answer is.
pub proof fn step_says_how_the_load_goes_on(step: LoadStep, next: Next)
    requires
        shows(step, next),
    ensures
        match next {
            Next::Ask(from, to) => step matches LoadStep::Ask(a, b) && a == from && b == to,
            Next::Wait => step is Wait,
            Next::Found(code) => step == LoadStep::Done(Ok(code)),
            Next::Failed(why) => step matches LoadStep::Done(Err(e)) && e.says(why),
        },
{
}

/// The sources that are asked first: one, or all at once.
pub open spec fn first_asked(strategy: MultiStrategy, sources: nat) -> Next {
    match strategy {
        MultiStrategy::Fallback => Next::Ask(0, 1),
        MultiStrategy::FirstOk => Next::Ask(0, sources as int),
    }
}

/// How a load goes on once a source has answered, `failures` being the answers
/// before it: a success ends it, and so does the last failure; before that a
/// failure has the next source asked, where not all are asked at once.
pub open spec fn next_after(
    strategy: MultiStrategy,
    sources: nat,
    key: Seq<char>,
    failures: Seq<Seq<char>>,
    answer: Result<String, ScriptError>,
) -> Next {
    match answer {
        Ok(code) => Next::Found(code),
        Err(e) => {
            let now = failures.push(e.text());
            if now.len() >= sources {
                Next::Failed(all_failed_text(strategy, key, now))
            } else {
                match strategy {
                    MultiStrategy::Fallback => Next::Ask(now.len() as int, now.len() as int + 1),
                    MultiStrategy::FirstOk => Next::Wait,
                }
            }
        },
    }
}

/// One source is asked at a time, the next after the last that failed, where the
/// sources are asked one after the other; else all of them are asked at first and
/// none later. A success ends the load whenever it comes, and a failure only where
/// it is the last.
pub proof fn sources_are_asked_in_turn(
    sources: nat,
    key: Seq<char>,
    failures: Seq<Seq<char>>,
    answer: Result<String, ScriptError>,
)
    requires
        failures.len() < sources,
    ensures
        first_asked(MultiStrategy::Fallback, sources) == Next::Ask(0, 1),
        first_asked(MultiStrategy::FirstOk, sources) == Next::Ask(0, sources as int),
        forall|strategy: MultiStrategy|
            #![trigger next_after(strategy, sources, key, failures, answer)]
            {
                let next = next_after(strategy, sources, key, failures, answer);
                let last = failures.len() + 1 == sources;
                &&& answer matches Ok(code) ==> next == Next::Found(code)
                &&& next is Failed <==> answer is Err && last
                &&& next is Wait <==> answer is Err && !last && strategy == MultiStrategy::FirstOk
                &&& next is Ask <==> answer is Err && !last && strategy == MultiStrategy::Fallback
                &&& next matches Next::Ask(from, to) ==> from == failures.len() + 1 && to == from
                    + 1
            },
{
}

/// A load that asks one source after the other, `answers` being what each would
/// answer: the positions asked in all, and how it ends. The source at the last
/// position in `asked` is the one to answer.
pub open spec fn fallback_course(
    key: Seq<char>,
    answers: Seq<Result<String, ScriptError>>,
    asked: Seq<int>,
    failures: Seq<Seq<char>>,
) -> (Seq<int>, Next)
    decreases answers.len() - failures.len(),
{
    if failures.len() >= answers.len() || asked.len() == 0 {
        (asked, Next::Wait)
    } else {
        let answer = answers[asked.last()];
        match next_after(MultiStrategy::Fallback, answers.len(), key, failures, answer) {
            Next::Ask(from, _) => fallback_course(
                key,
                answers,
                asked.push(from),
                failures.push(answer->Err_0.text()),
            ),
            end => (asked, end),
        }
    }
}

/// How a load ends that asks all sources at once, `answers` being their answers
/// in the order in which they come.
pub open spec fn race_course(
    key: Seq<char>,
    answers: Seq<Result<String, ScriptError>>,
    failures: Seq<Seq<char>>,
) -> Next
    decreases answers.len() - failures.len(),
{
    if failures.len() >= answers.len() {
        Next::Wait
    } else {
        let answer = answers[failures.len() as int];
        match next_after(MultiStrategy::FirstOk, answers.len(), key, failures, answer) {
            Next::Wait => race_course(key, answers, failures.push(answer->Err_0.text())),
            end => end,
        }
    }
}

/// The first positions, in order.
pub open spec fn positions(n: nat) -> Seq<int> {
    Seq::new(n, |i: int| i)
}

/// The messages of the first failures.
pub open spec fn failure_texts(answers: Seq<Result<String, ScriptError>>, n: nat) -> Seq<Seq<char>> {
    Seq::new(n, |i: int| answers[i]->Err_0.text())
}

proof fn lemma_fallback_goes_on(
    key: Seq<char>,
    answers: Seq<Result<String, ScriptError>>,
    at: nat,
    end: nat,
)
    requires
        at <= end < answers.len(),
        forall|i: int| 0 <= i < end ==> (#[trigger] answers[i]) is Err,
    ensures
        fallback_course(key, answers, positions(at + 1), failure_texts(answers, at))
            == fallback_course(key, answers, positions(end + 1), failure_texts(answers, end)),
    decreases end - at,
{
    if at < end {
        assert(positions(at + 1).last() == at);
        assert(answers[at as int] is Err);
        assert(positions(at + 1).push(at as int + 1) =~= positions(at + 2));
        assert(failure_texts(answers, at).push(answers[at as int]->Err_0.text()) =~= failure_texts(
            answers,
            at + 1,
        ));
        lemma_fallback_goes_on(key, answers, at + 1, end);
    }
}

/// A load that asks one source after the other gives the first success; it has
/// asked the sources up to that one, in order, once each, and no other.
pub proof fn fallback_stops_at_the_first_success(
    key: Seq<char>,
    answers: Seq<Result<String, ScriptError>>,
    i: nat,
)
    requires
        i < answers.len(),
        answers[i as int] is Ok,
        forall|j: int| 0 <= j < i ==> (#[trigger] answers[j]) is Err,
    ensures
        fallback_course(key, answers, positions(1), Seq::empty()) == (
            positions(i + 1),
            Next::Found(answers[i as int]->Ok_0),
        ),
{
    assert(failure_texts(answers, 0) =~= Seq::<Seq<char>>::empty());
    lemma_fallback_goes_on(key, answers, 0, i);
    assert(positions(i + 1).last() == i);
}

/// A load that asks one source after the other and gets failures alone has
/// asked all sources, in order, once each, and fails with all their messages,
/// in that order.
pub proof fn fallback_fails_after_all(key: Seq<char>, answers: Seq<Result<String, ScriptError>>)
    requires
        answers.len() > 0,
        forall|j: int| 0 <= j < answers.len() ==> (#[trigger] answers[j]) is Err,
    ensures
        fallback_course(key, answers, positions(1), Seq::empty()) == (
            positions(answers.len()),
            Next::Failed(
                all_failed_text(
                    MultiStrategy::Fallback,
                    key,
                    failure_texts(answers, answers.len()),
                ),
            ),
        ),
{
    let last = (answers.len() - 1) as nat;
    assert(failure_texts(answers, 0) =~= Seq::<Seq<char>>::empty());
    lemma_fallback_goes_on(key, answers, 0, last);
    assert(positions(last + 1).last() == last);
    assert(answers[last as int] is Err);
    assert(failure_texts(answers, last).push(answers[last as int]->Err_0.text()) =~= failure_texts(
        answers,
        answers.len(),
    ));
}

proof fn lemma_race_goes_on(
    key: Seq<char>,
    answers: Seq<Result<String, ScriptError>>,
    at: nat,
    end: nat,
)
    requires
        at <= end < answers.len(),
        forall|i: int| 0 <= i < end ==> (#[trigger] answers[i]) is Err,
    ensures
        race_course(key, answers, failure_texts(answers, at)) == race_course(
            key,
            answers,
            failure_texts(answers, end),
        ),
    decreases end - at,
{
    if at < end {
        assert(answers[at as int] is Err);
        assert(failure_texts(answers, at).push(answers[at as int]->Err_0.text()) =~= failure_texts(
            answers,
            at + 1,
        ));
        lemma_race_goes_on(key, answers, at + 1, end);
    }
}

/// A load that asks all sources at once gives the success that comes first,
/// whatever comes after it.
pub proof fn race_gives_the_first_success(
    key: Seq<char>,
    answers: Seq<Result<String, ScriptError>>,
    i: nat,
)
    requires
        i < answers.len(),
        answers[i as int] is Ok,
        forall|j: int| 0 <= j < i ==> (#[trigger] answers[j]) is Err,
    ensures
        race_course(key, answers, Seq::empty()) == Next::Found(answers[i as int]->Ok_0),
{
    assert(failure_texts(answers, 0) =~= Seq::<Seq<char>>::empty());
    lemma_race_goes_on(key, answers, 0, i);
}

/// A load that asks all sources at once and gets failures alone fails with all
/// their messages, in the order in which they came.
pub proof fn race_fails_after_all(key: Seq<char>, answers: Seq<Result<String, ScriptError>>)
    requires
        answers.len() > 0,
        forall|j: int| 0 <= j < answers.len() ==> (#[trigger] answers[j]) is Err,
    ensures
        race_course(key, answers, Seq::empty()) == Next::Failed(
            all_failed_text(MultiStrategy::FirstOk, key, failure_texts(answers, answers.len())),
        ),
{
    let last = (answers.len() - 1) as nat;
    assert(failure_texts(answers, 0) =~= Seq::<Seq<char>>::empty());
    lemma_race_goes_on(key, answers, 0, last);
    assert(answers[last as int] is Err);
    assert(failure_texts(answers, last).push(answers[last as int]->Err_0.text()) =~= failure_texts(
        answers,
        answers.len(),
    ));
}

/// A load that has begun.
pub struct Load {
    strategy: MultiStrategy,
    sources: usize,
    gathering: Gathering,
}

impl Load {
    /// How the sources are asked.
    pub closed spec fn way(&self) -> MultiStrategy {
        self.strategy
    }

    /// The number of sources.
    pub closed spec fn sources(&self) -> nat {
        self.sources as nat
    }

    /// The messages of the failures, in the order in which they came.
    pub closed spec fn failures(&self) -> Seq<Seq<char>> {
        self.gathering.failures()
    }

    /// There is an answer to come.
    pub open spec fn wf(&self) -> bool {
        self.failures().len() < self.sources()
    }

    /// Takes the answer of a source.
    pub fn answered(&mut self, key: &str, answer: Result<String, ScriptError>) -> (r: LoadStep)
        requires
            old(self).wf(),
        ensures
            shows(
                r,
                next_after(
                    old(self).way(),
                    old(self).sources(),
                    key@,
                    old(self).failures(),
                    answer,
                ),
            ),
            final(self).way() == old(self).way(),
            final(self).sources() == old(self).sources(),
            final(self).failures() == (match answer {
                Ok(_) => old(self).failures(),
                Err(e) => old(self).failures().push(e.text()),
            }),
            !(r is Done) ==> final(self).wf(),
    {
        if let Some(code) = self.gathering.took(answer) {
            return LoadStep::Done(Ok(code));
        }
        let taken: usize = self.gathering.len();
        if taken >= self.sources {
            return LoadStep::Done(Err(self.gathering.give_up(self.strategy, key)));
        }
        match self.strategy {
            MultiStrategy::Fallback => LoadStep::Ask(taken, taken + 1),
            MultiStrategy::FirstOk => LoadStep::Wait,
        }
    }
}

/// The answers so far, all of them failures.
pub struct Gathering {
    failures: Vec<String>,
}

impl Gathering {
    /// The messages of the failures, in the order in which they came.
    pub closed spec fn failures(&self) -> Seq<Seq<char>> {
        crate::text::texts(self.failures@)
    }

    /// Before the first answer.
    pub fn new() -> (r: Self)
        ensures
            r.failures() == Seq::<Seq<char>>::empty(),
    {
        let r = Gathering { failures: Vec::new() };
        assert(r.failures() =~= Seq::<Seq<char>>::empty());
        r
    }

    /// The number of failures.
    pub fn len(&self) -> (r: usize)
        ensures
            r == self.failures().len(),
    {
        self.failures.len()
    }

    /// Takes an answer to a load. A success is the answer of the whole; a
    /// failure is kept.
    pub fn took(&mut self, answer: Result<String, ScriptError>) -> (r: Option<String>)
        ensures
            match answer {
                Ok(code) => r == Some(code) && final(self).failures() == old(self).failures(),
                Err(e) => r is None && final(self).failures() == old(self).failures().push(
                    e.text(),
                ),
            },
    {
        let ghost before = self.failures();
        match answer {
            Ok(code) => Some(code),
            Err(e) => {
                self.failures.push(e.message());
                assert(self.failures() =~= before.push(e.text()));
                None
            },
        }
    }

    /// The failure of the load, every source having failed.
    pub fn give_up(&self, strategy: MultiStrategy, key: &str) -> (r: ScriptError)
        ensures
            r.says(all_failed_text(strategy, key@, self.failures())),
    {
        let asked = match strategy {
            MultiStrategy::Fallback => "multi source(fallback): all sources failed for ",
            MultiStrategy::FirstOk => "multi source(first-ok): all sources failed for ",
        };
        let quoted = debug_quoted(key);
        let mut text = cat3(asked, quoted.as_str(), ": ");
        let causes = join(&self.failures, "; ");
        text.append(causes.as_str());
        ScriptError::Failed(text)
    }

    /// Takes the answer of source number `index` to a watch. A source that
    /// cannot be watched is passed over; another failure is kept, with the
    /// number of the source.
    pub fn took_watch<W>(&mut self, index: usize, answer: Result<W, ScriptError>) -> (r: Option<W>)
        ensures
            match answer {
                Ok(watch) => r == Some(watch) && final(self).failures() == old(self).failures(),
                Err(ScriptError::CapabilityNotSupported) => r is None && final(self).failures()
                    == old(self).failures(),
                Err(e) => r is None && final(self).failures() == old(self).failures().push(
                    "source["@ + crate::text::decimal(index as nat) + "]: "@ + e.text(),
                ),
            },
    {
        let ghost before = self.failures();
        match answer {
            Ok(watch) => Some(watch),
            Err(ScriptError::CapabilityNotSupported) => None,
            Err(e) => {
                let number = decimal_text(index as u64);
                let mut text = cat3("source[", number.as_str(), "]: ");
                let cause = e.message();
                text.append(cause.as_str());
                self.failures.push(text);
                assert(self.failures() =~= before.push(
                    "source["@ + crate::text::decimal(index as nat) + "]: "@ + e.text(),
                ));
                None
            },
        }
    }

    /// The failure of the watch, no source having come up with one.
    pub fn give_up_watch(&self) -> (r: ScriptError)
        ensures
            r.says(unwatched_text(self.failures())),
    {
        if self.failures.len() == 0 {
            return ScriptError::Failed(
                "multi source: none of the sub-sources implements watching".to_owned(),
            );
        }
        let mut text = "multi source: no watcher available: ".to_owned();
        let causes = join(&self.failures, "; ");
        text.append(causes.as_str());
        ScriptError::Failed(text)
    }
}

} // verus!
