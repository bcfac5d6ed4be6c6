//! Rate limiting: what a limiter answers, given how long the next unit is
//! away.
use vstd::prelude::*;

use crate::text::cat;

verus! {

/// A failure of a rate limiter.
#[derive(Debug, PartialEq, Eq)]
#[non_exhaustive]
pub enum RateLimitError {
    /// The limit is exhausted for good, as it is once the limiter is closed.
    Limited,
    /// The limiter could not complete the operation.
    Failed(String),
}

impl RateLimitError {
    /// The error as a line of text.
    pub open spec fn text(&self) -> Seq<char> {
        match self {
            RateLimitError::Limited => "ratelimit: rate limit exceeded"@,
            RateLimitError::Failed(msg) => "ratelimit operation failed: "@ + msg@,
        }
    }

    /// The error as a line of text.
    pub fn message(&self) -> (s: String)
        ensures
            s@ == self.text(),
    {
        match self {
            RateLimitError::Limited => "ratelimit: rate limit exceeded".to_owned(),
            RateLimitError::Failed(msg) => cat("ratelimit operation failed: ", msg.as_str()),
        }
    }
}

/// What a waiting caller does next.
#[derive(Debug, PartialEq, Eq)]
pub enum WaitStep {
    /// The unit is taken.
    Granted,
    /// Sleep this many nanoseconds and ask again.
    Sleep(u128),
}

/// The valve of a bucket: open until it is closed for good.
pub struct Valve {
    closed: bool,
}

impl Valve {
    /// The valve was closed.
    pub closed spec fn is_shut(&self) -> bool {
        self.closed
    }

    /// An open valve.
    pub fn new() -> (r: Self)
        ensures
            !r.is_shut(),
    {
        Valve { closed: false }
    }

    /// Whether the valve was closed; a closed valve leaves the bucket untouched.
    pub fn is_closed(&self) -> (r: bool)
        ensures
            r == self.is_shut(),
    {
        self.closed
    }

    /// Asks without waiting, the next unit being `wait` nanoseconds away: only
    /// an open valve in front of a bucket that has the unit lets the caller
    /// pass.
    pub fn allow(&self, wait: u128) -> (r: bool)
        ensures
            r == (!self.is_shut() && wait == 0),
    {
        !self.closed && wait == 0
    }

    /// Asks and is ready to wait: a closed valve refuses, an open one passes the
    /// caller when the unit is there and else says how long to sleep.
    pub fn wait(&self, wait: u128) -> (r: Result<WaitStep, RateLimitError>)
        ensures
            self.is_shut() ==> r == Err::<WaitStep, RateLimitError>(RateLimitError::Limited),
            !self.is_shut() && wait == 0 ==> r == Ok::<WaitStep, RateLimitError>(WaitStep::Granted),
            !self.is_shut() && wait > 0 ==> r == Ok::<WaitStep, RateLimitError>(
                WaitStep::Sleep(wait),
            ),
    {
        if self.closed {
            Err(RateLimitError::Limited)
        } else if wait == 0 {
            Ok(WaitStep::Granted)
        } else {
            Ok(WaitStep::Sleep(wait))
        }
    }

    /// Closes the valve. It does not open again.
    pub fn close(&mut self)
        ensures
            final(self).is_shut(),
    {
        self.closed = true;
    }
}

} // verus!
