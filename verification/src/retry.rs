//! Retrying: how many attempts, how long between them, and when to give up.
//! Durations are whole nanoseconds.
use vstd::prelude::*;

use crate::random::random_bytes;
use crate::text::cat;

verus! {

/// Nanoseconds in a millisecond.
pub const NANOS_PER_MILLI: u128 = 1_000_000;

/// The longest duration of the standard library, in nanoseconds.
pub const DURATION_MAX: u128 = 18_446_744_073_709_551_615_999_999_999;

/// Two to the power of 64.
pub const DRAWS: u128 = 0x1_0000_0000_0000_0000;

/// Why retrying ended without a value.
#[derive(Debug, PartialEq, Eq)]
#[non_exhaustive]
pub enum RetryError<E> {
    /// No attempt is left, or the error is not worth another one; carries the
    /// error of the last attempt.
    MaxAttempts(E),
    /// The total time is used up.
    Timeout,
}

impl RetryError<String> {
    /// The error as a line of text.
    pub open spec fn text(&self) -> Seq<char> {
        match self {
            RetryError::MaxAttempts(e) => "retry: max attempts exceeded: "@ + e@,
            RetryError::Timeout => "retry: total timeout exceeded"@,
        }
    }

    /// The error as a line of text.
    pub fn message(&self) -> (s: String)
        ensures
            s@ == self.text(),
    {
        match self {
            RetryError::MaxAttempts(e) => cat("retry: max attempts exceeded: ", e.as_str()),
            RetryError::Timeout => "retry: total timeout exceeded".to_owned(),
        }
    }
}

/// How long to wait between attempts.
#[derive(Clone, Copy, Debug, PartialEq, Eq)]
pub enum Backoff {
    /// Always as long.
    Fixed(u128),
    /// Each wait `factor` times the one before, but none longer than `max`.
    Exponential {
        /// The wait after the first failed attempt.
        initial: u128,
        /// The bits of the factor, a double-precision number.
        factor_bits: u64,
        /// The longest wait.
        max: u128,
    },
}

impl Default for Backoff {
    /// 200 ms, doubled after each attempt, up to 10 s.
    fn default() -> (r: Self)
        ensures
            r == (Backoff::Exponential {
                initial: 200_000_000,
                factor_bits: 0x4000_0000_0000_0000,
                max: 10_000_000_000,
            }),
    {
        Backoff::Exponential {
            initial: 200_000_000,
            factor_bits: 0x4000_0000_0000_0000,
            max: 10_000_000_000,
        }
    }
}

/// How a wait is randomised.
#[derive(Clone, Copy, Debug, PartialEq, Eq, Structural)]
pub enum Jitter {
    /// Not at all.
    Off,
    /// Anywhere below the wait.
    Full,
    /// Anywhere between half the wait and the wait.
    Equal,
}

impl Default for Jitter {
    fn default() -> (r: Self)
        ensures
            r == Jitter::Off,
    {
        Jitter::Off
    }
}

/// The fraction `draw / 2^64` of `millis`, rounded down.
pub open spec fn share(millis: nat, draw: u64) -> nat {
    (millis * draw as nat) / DRAWS as nat
}

/// A number of milliseconds, as far as 64 bits can hold it.
pub open spec fn capped(millis: nat) -> nat {
    if millis > u64::MAX {
        u64::MAX as nat
    } else {
        millis
    }
}

/// What `jitter` makes of a wait when the die shows `draw`: a wait of zero and
/// one that is not randomised stay as they are, every other one becomes a
/// whole number of milliseconds. Equal jitter keeps to half the wait where the
/// whole milliseconds would fall below it.
pub open spec fn jittered(jitter: Jitter, delay: nat, draw: u64) -> nat {
    let millis = delay / NANOS_PER_MILLI as nat;
    if delay == 0 {
        delay
    } else {
        match jitter {
            Jitter::Off => delay,
            Jitter::Full => capped(share(millis, draw)) * NANOS_PER_MILLI as nat,
            Jitter::Equal => {
                let whole = capped((millis + share(millis, draw)) / 2) * NANOS_PER_MILLI as nat;
                if whole < delay / 2 {
                    delay / 2
                } else {
                    whole
                }
            },
        }
    }
}

/// The fraction of a whole is less than the whole.
proof fn lemma_share(millis: nat, draw: u64)
    ensures
        millis > 0 ==> share(millis, draw) < millis,
        millis == 0 ==> share(millis, draw) == 0,
{
    let m = millis as int;
    let d = draw as int;
    if millis > 0 {
        assert(m * d < m * 0x1_0000_0000_0000_0000) by (nonlinear_arith)
            requires
                m > 0,
                0 <= d < 0x1_0000_0000_0000_0000,
        ;
        assert((m * d) / 0x1_0000_0000_0000_0000 < m) by (nonlinear_arith)
            requires
                m * d < m * 0x1_0000_0000_0000_0000,
        ;
    } else {
        assert(m * d == 0) by (nonlinear_arith)
            requires
                m == 0,
        ;
    }
}

/// Full jitter lands below the wait, equal jitter between half the wait and
/// the wait.
pub proof fn jitter_stays_in_bounds(delay: nat, draw: u64)
    requires
        delay > 0,
    ensures
        jittered(Jitter::Full, delay, draw) < delay,
        delay / 2 <= jittered(Jitter::Equal, delay, draw) < delay,
{
    let millis = delay / NANOS_PER_MILLI as nat;
    lemma_share(millis, draw);
}

/// The die decides evenly where the wait lands. With `part` being what `draw /
/// 2^64` of the wait's whole milliseconds comes to, full jitter waits so many
/// milliseconds, and equal jitter half of the wait's and half of those, but no
/// less than half the wait; neither counts more milliseconds than 64 bits hold.
/// A wait without jitter, and one of zero, stay as they are.
pub proof fn die_spreads_evenly(delay: nat, draw: u64, part: nat)
    requires
        part * 0x1_0000_0000_0000_0000 <= (delay / 1_000_000) * draw as nat,
        (part + 1) * 0x1_0000_0000_0000_0000 > (delay / 1_000_000) * draw as nat,
    ensures
        jittered(Jitter::Off, delay, draw) == delay,
        delay == 0 ==> jittered(Jitter::Full, delay, draw) == 0 && jittered(
            Jitter::Equal,
            delay,
            draw,
        ) == 0,
        delay > 0 ==> ({
            let most: nat = u64::MAX as nat;
            let half = (delay / 1_000_000 + part) / 2;
            let full = jittered(Jitter::Full, delay, draw);
            let equal = jittered(Jitter::Equal, delay, draw);
            &&& part <= most ==> full == part * 1_000_000
            &&& part > most ==> full == most * 1_000_000
            &&& equal >= delay / 2
            &&& half <= most ==> equal >= half * 1_000_000
            &&& half > most ==> equal >= most * 1_000_000
            &&& equal == delay / 2 || equal == half * 1_000_000 || (half > most && equal == most
                * 1_000_000)
        }),
{
    if delay > 0 {
        let millis = delay / NANOS_PER_MILLI as nat;
        let whole = millis * draw as nat;
        assert(share(millis, draw) == whole / 0x1_0000_0000_0000_0000);
        assert(share(millis, draw) == part);
    }
}

impl Jitter {
    /// Randomises a wait, the die showing `draw`.
    pub fn apply_drawn(&self, delay: u128, draw: u64) -> (r: u128)
        requires
            delay <= DURATION_MAX,
        ensures
            r == jittered(*self, delay as nat, draw),
    {
        if delay == 0 {
            return delay;
        }
        let millis: u128 = delay / NANOS_PER_MILLI;
        let high: u128 = (draw as u128) / 0x1_0000_0000;
        let low: u128 = (draw as u128) % 0x1_0000_0000;
        proof {
            let m = millis as int;
            assert(m <= 0x1_0000_0000_0000_0000 * 1000);
            assert(0 <= m * high <= m * 0x1_0000_0000 <= 0x1_0000_0000_0000_0000 * 1000
                * 0x1_0000_0000) by (nonlinear_arith)
                requires
                    0 <= m <= 0x1_0000_0000_0000_0000 * 1000,
                    0 <= high <= 0x1_0000_0000,
            ;
            assert(0 <= m * low <= 0x1_0000_0000_0000_0000 * 1000 * 0x1_0000_0000)
                by (nonlinear_arith)
                requires
                    0 <= m <= 0x1_0000_0000_0000_0000 * 1000,
                    0 <= low <= 0x1_0000_0000,
            ;
            assert(m * draw == m * high * 0x1_0000_0000 + m * low) by (nonlinear_arith)
                requires
                    draw == high * 0x1_0000_0000 + low,
            ;
        }
        let part: u128 = (millis * high + millis * low / 0x1_0000_0000) / 0x1_0000_0000;
        proof {
            let (a, b) = (millis as int * high, millis as int * low);
            assert(part == (a + b / 0x1_0000_0000) / 0x1_0000_0000);
            assert((a * 0x1_0000_0000 + b) / 0x1_0000_0000_0000_0000 == (a + b / 0x1_0000_0000)
                / 0x1_0000_0000) by (nonlinear_arith);
            assert(part == share(millis as nat, draw));
            lemma_share(millis as nat, draw);
        }
        let (wanted, least): (u128, u128) = match self {
            Jitter::Off => {
                return delay;
            },
            Jitter::Full => (part, 0),
            Jitter::Equal => ((millis + part) / 2, delay / 2),
        };
        let whole: u128 = if wanted > u64::MAX as u128 {
            (u64::MAX as u128) * NANOS_PER_MILLI
        } else {
            wanted * NANOS_PER_MILLI
        };
        if whole < least {
            least
        } else {
            whole
        }
    }

    /// Randomises a wait. Which of the possible waits comes out is up to the
    /// system's source of randomness.
    pub fn apply(&self, delay: u128) -> (r: u128)
        requires
            delay <= DURATION_MAX,
        ensures
            exists|draw: u64| r == #[trigger] jittered(*self, delay as nat, draw),
            delay == 0 || *self == Jitter::Off ==> r == delay,
            delay > 0 && *self == Jitter::Full ==> r < delay,
            delay > 0 && *self == Jitter::Equal ==> delay / 2 <= r < delay,
    {
        let bytes = random_bytes(8);
        let draw: u64 = vstd::bytes::u64_from_le_bytes(bytes.as_slice());
        proof {
            if delay > 0 {
                jitter_stays_in_bounds(delay as nat, draw);
            }
        }
        self.apply_drawn(delay, draw)
    }
}

/// What follows a failed attempt.
pub enum Verdict {
    /// The caller does not want this error retried.
    Rejected,
    /// The total time is used up.
    Expired,
    /// It was the last attempt.
    Exhausted,
    /// There is another attempt.
    Again,
}

/// What follows the failure of attempt number `attempt`, counted from zero,
/// `elapsed` nanoseconds after the start.
pub open spec fn verdict(
    max_attempts: u32,
    budget: Option<u128>,
    attempt: u32,
    retryable: bool,
    elapsed: u128,
) -> Verdict {
    if !retryable {
        Verdict::Rejected
    } else if budget is Some && elapsed >= budget->0 {
        Verdict::Expired
    } else if attempt + 1 >= max_attempts {
        Verdict::Exhausted
    } else {
        Verdict::Again
    }
}

/// Without a bound on the total time, retryable failures use up the attempts
/// and no more: each attempt but the last is followed by another, the last by
/// none.
pub proof fn every_attempt_runs(max_attempts: u32, attempt: u32, elapsed: u128)
    requires
        attempt < max_attempts,
    ensures
        verdict(max_attempts, None, attempt, true, elapsed) == (if attempt + 1 < max_attempts {
            Verdict::Again
        } else {
            Verdict::Exhausted
        }),
{
}

/// The total time is used up from its bound on, not before: a retryable failure
/// of an attempt that is not the last is followed by another attempt exactly
/// where less than the bound has passed. A failure that is not worth another
/// attempt, and the last attempt within the time, end it with the error.
pub proof fn time_is_up_from_its_bound_on(
    max_attempts: u32,
    bound: u128,
    attempt: u32,
    elapsed: u128,
)
    requires
        attempt < max_attempts,
    ensures
        ({
            let v = verdict(max_attempts, Some(bound), attempt, true, elapsed);
            &&& v is Expired <==> elapsed >= bound
            &&& v is Again <==> elapsed < bound && attempt < max_attempts - 1
            &&& v is Exhausted <==> elapsed < bound && attempt == max_attempts - 1
        }),
        forall|budget: Option<u128>, retryable: bool|
            #![trigger verdict(max_attempts, budget, attempt, retryable, elapsed)]
            verdict(max_attempts, budget, attempt, retryable, elapsed) is Rejected <==> !retryable,
        verdict(max_attempts, None, attempt, true, elapsed) is Again <==> attempt < max_attempts
            - 1,
{
}

/// More time gone never brings an attempt back, and a larger bound never takes
/// one away.
pub proof fn time_only_runs_out(
    max_attempts: u32,
    attempt: u32,
    retryable: bool,
    bounds: (u128, u128),
    elapsed: (u128, u128),
)
    requires
        elapsed.0 <= elapsed.1,
        bounds.0 <= bounds.1,
    ensures
        verdict(max_attempts, Some(bounds.0), attempt, retryable, elapsed.1) is Again ==> verdict(
            max_attempts,
            Some(bounds.1),
            attempt,
            retryable,
            elapsed.0,
        ) is Again,
        verdict(max_attempts, Some(bounds.0), attempt, retryable, elapsed.1) is Again ==> verdict(
            max_attempts,
            None,
            attempt,
            retryable,
            elapsed.0,
        ) is Again,
{
}

/// What the caller does after a failed attempt.
#[derive(Debug, PartialEq, Eq)]
pub enum AfterFailure<E> {
    /// Report this.
    GiveUp(RetryError<E>),
    /// Wait, and make the attempt of this number.
    Retry(u32),
}

/// How to retry.
#[derive(Debug)]
pub struct Retrier {
    max_attempts: u32,
    backoff: Backoff,
    jitter: Jitter,
    max_total_wait: Option<u128>,
}

impl Retrier {
    /// The number of attempts, the first counted in.
    pub closed spec fn attempts(&self) -> u32 {
        self.max_attempts
    }

    /// How long to wait between attempts.
    pub closed spec fn pace(&self) -> Backoff {
        self.backoff
    }

    /// How the waits are randomised.
    pub closed spec fn spread(&self) -> Jitter {
        self.jitter
    }

    /// The bound on the total time.
    pub closed spec fn budget(&self) -> Option<u128> {
        self.max_total_wait
    }

    /// There is at least one attempt.
    #[verifier::type_invariant]
    spec fn valid(&self) -> bool {
        self.max_attempts >= 1
    }
}

impl Clone for Retrier {
    fn clone(&self) -> (r: Self)
        ensures
            r == *self,
    {
        proof {
            use_type_invariant(self);
        }
        Retrier {
            max_attempts: self.max_attempts,
            backoff: self.backoff,
            jitter: self.jitter,
            max_total_wait: self.max_total_wait,
        }
    }
}

impl Default for Retrier {
    /// Three attempts, the default backoff, no jitter, no bound on the time.
    fn default() -> (r: Self)
        ensures
            r.attempts() == 3,
            r.pace() == (Backoff::Exponential {
                initial: 200_000_000,
                factor_bits: 0x4000_0000_0000_0000,
                max: 10_000_000_000,
            }),
            r.spread() == Jitter::Off,
            r.budget() is None,
    {
        Retrier {
            max_attempts: 3,
            backoff: Backoff::default(),
            jitter: Jitter::Off,
            max_total_wait: None,
        }
    }
}

impl Retrier {
    /// The default.
    pub fn new() -> (r: Self)
        ensures
            r.attempts() == 3,
            r.pace() == (Backoff::Exponential {
                initial: 200_000_000,
                factor_bits: 0x4000_0000_0000_0000,
                max: 10_000_000_000,
            }),
            r.spread() == Jitter::Off,
            r.budget() is None,
    {
        Retrier::default()
    }

    /// Sets the number of attempts, the first counted in. Zero is ignored.
    pub fn max_attempts(self, n: u32) -> (r: Self)
        ensures
            r.attempts() == (if n >= 1 {
                n
            } else {
                self.attempts()
            }),
            r.pace() == self.pace(),
            r.spread() == self.spread(),
            r.budget() == self.budget(),
    {
        proof {
            use_type_invariant(&self);
        }
        Retrier {
            max_attempts: if n >= 1 {
                n
            } else {
                self.max_attempts
            },
            backoff: self.backoff,
            jitter: self.jitter,
            max_total_wait: self.max_total_wait,
        }
    }

    /// Sets the waits between attempts.
    pub fn backoff(self, backoff: Backoff) -> (r: Self)
        ensures
            r.attempts() == self.attempts(),
            r.pace() == backoff,
            r.spread() == self.spread(),
            r.budget() == self.budget(),
    {
        proof {
            use_type_invariant(&self);
        }
        Retrier {
            max_attempts: self.max_attempts,
            backoff,
            jitter: self.jitter,
            max_total_wait: self.max_total_wait,
        }
    }

    /// Sets how the waits are randomised.
    pub fn jitter(self, jitter: Jitter) -> (r: Self)
        ensures
            r.attempts() == self.attempts(),
            r.pace() == self.pace(),
            r.spread() == jitter,
            r.budget() == self.budget(),
    {
        proof {
            use_type_invariant(&self);
        }
        Retrier {
            max_attempts: self.max_attempts,
            backoff: self.backoff,
            jitter,
            max_total_wait: self.max_total_wait,
        }
    }

    /// Bounds the time of all attempts and waits together.
    pub fn max_total_wait(self, timeout: u128) -> (r: Self)
        ensures
            r.attempts() == self.attempts(),
            r.pace() == self.pace(),
            r.spread() == self.spread(),
            r.budget() == Some(timeout),
    {
        proof {
            use_type_invariant(&self);
        }
        Retrier {
            max_attempts: self.max_attempts,
            backoff: self.backoff,
            jitter: self.jitter,
            max_total_wait: Some(timeout),
        }
    }

    /// How long to wait between attempts.
    pub fn current_backoff(&self) -> (r: Backoff)
        ensures
            r == self.pace(),
    {
        self.backoff
    }

    /// Decides what follows the failure of attempt number `attempt`, counted
    /// from zero, `elapsed` nanoseconds after the start.
    pub fn attempt_failed<E>(&self, attempt: u32, error: E, retryable: bool, elapsed: u128) -> (r:
        AfterFailure<E>)
        requires
            attempt < self.attempts(),
        ensures
            r == (match verdict(self.attempts(), self.budget(), attempt, retryable, elapsed) {
                Verdict::Rejected => AfterFailure::GiveUp(RetryError::MaxAttempts(error)),
                Verdict::Expired => AfterFailure::GiveUp(RetryError::Timeout),
                Verdict::Exhausted => AfterFailure::GiveUp(RetryError::MaxAttempts(error)),
                Verdict::Again => AfterFailure::Retry((attempt + 1) as u32),
            }),
            r matches AfterFailure::Retry(next) ==> next == attempt + 1 && next < self.attempts(),
            r is Retry <==> retryable && attempt < self.attempts() - 1 && (self.budget() is None
                || elapsed < self.budget()->0),
            r == AfterFailure::<E>::GiveUp(RetryError::Timeout) <==> retryable && self.budget()
                is Some && elapsed >= self.budget()->0,
            r is GiveUp && r->GiveUp_0 is MaxAttempts ==> r->GiveUp_0->MaxAttempts_0 == error,
    {
        if !retryable {
            return AfterFailure::GiveUp(RetryError::MaxAttempts(error));
        }
        if let Some(budget) = self.max_total_wait {
            if elapsed >= budget {
                return AfterFailure::GiveUp(RetryError::Timeout);
            }
        }
        if attempt >= self.max_attempts - 1 {
            return AfterFailure::GiveUp(RetryError::MaxAttempts(error));
        }
        AfterFailure::Retry(attempt + 1)
    }

    /// Randomises the wait before an attempt.
    pub fn spread_wait(&self, delay: u128) -> (r: u128)
        requires
            delay <= DURATION_MAX,
        ensures
            exists|draw: u64| r == #[trigger] jittered(self.spread(), delay as nat, draw),
    {
        self.jitter.apply(delay)
    }

    /// Whether there is time for a wait of `delay`, `elapsed` nanoseconds after
    /// the start: with the wait, the total time must stay below its bound.
    pub fn wait_fits(&self, elapsed: u128, delay: u128) -> (r: bool)
        requires
            self.budget() is Some ==> elapsed + delay <= DURATION_MAX,
        ensures
            r == (self.budget() is None || elapsed + delay < self.budget()->0),
    {
        match self.max_total_wait {
            Some(budget) => elapsed + delay < budget,
            None => true,
        }
    }
}

} // verus!
