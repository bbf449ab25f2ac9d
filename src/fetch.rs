use vstd::prelude::*;

use crate::status::{Timestamp, WebsiteStatus};

verus! {

/// How long a worker waits after a failed attempt before the next one.
pub const RETRY_DELAY_MS: u64 = 100;

/// What one attempt came back with: a response with its status code, or a
/// transport failure (refused connection, failed lookup, timeout) described
/// in words.
pub enum AttemptResult {
    Response(u16),
    TransportError(String),
}

impl View for AttemptResult {
    type V = Result<u16, Seq<char>>;

    open spec fn view(&self) -> Result<u16, Seq<char>> {
        match self {
            AttemptResult::Response(code) => Ok(*code),
            AttemptResult::TransportError(msg) => Err(msg@),
        }
    }
}

/// The configuration of a health check: the timeout of each attempt and how
/// many times a transport failure is retried.
pub struct Fetcher {
    pub timeout_secs: u64,
    pub retries: u32,
}

/// A health check of one address that is still in progress.
pub struct FetchAttempt {
    pub url: String,
    /// Attempts that may still be made, the current one included.
    pub attempts_left: u64,
}

/// What to do after an attempt: wait `RETRY_DELAY_MS` and attempt again, or
/// stop with the final record.
pub enum FetchStep {
    RetryAfterDelay(FetchAttempt),
    Done(WebsiteStatus),
}

/// The outcome that an attempt settles, given the attempts left before it
/// (itself included); `None` when another attempt follows.
pub open spec fn settled(attempts_left: nat, result: Result<u16, Seq<char>>) -> Option<Result<u16, Seq<char>>> {
    match result {
        Ok(code) => Some(Ok(code)),
        Err(msg) => if attempts_left > 1 {
            None
        } else {
            Some(Err(msg))
        },
    }
}

/// The check run against the attempt results `results`, in order, starting with
/// `attempts_left` attempts: how many attempts it makes and the outcome it settles
/// on (`None` when `results` runs out first).
pub open spec fn run(attempts_left: nat, results: Seq<Result<u16, Seq<char>>>) -> (nat, Option<Result<u16, Seq<char>>>)
    decreases results.len(),
{
    if results.len() == 0 {
        (0, None)
    } else {
        match settled(attempts_left, results[0]) {
            Some(outcome) => (1, Some(outcome)),
            None => {
                let rest = run((attempts_left - 1) as nat, results.drop_first());
                (rest.0 + 1, rest.1)
            },
        }
    }
}

/// The outcome held by a record, with its message as characters.
pub open spec fn outcome_of(s: WebsiteStatus) -> Result<u16, Seq<char>> {
    match s.action_status {
        Ok(code) => Ok(code),
        Err(msg) => Err(msg@),
    }
}

impl Fetcher {
    /// A configuration with a timeout of `timeout_secs` per attempt and
    /// `retries` retries after a transport failure.
    pub fn new(timeout_secs: u64, retries: u32) -> (r: Fetcher)
        ensures
            r.timeout_secs == timeout_secs,
            r.retries == retries,
    {
        Fetcher { timeout_secs, retries }
    }

    /// Starts the check of `url`: `retries + 1` attempts may be made.
    pub fn start(&self, url: String) -> (r: FetchAttempt)
        ensures
            r.url@ == url@,
            r.attempts_left == self.retries + 1,
    {
        FetchAttempt { url, attempts_left: self.retries as u64 + 1 }
    }
}

impl FetchAttempt {
    /// Takes in the result of the current attempt, measured at `timestamp` and
    /// taking `response_ms`. A response of any code ends the check with that
    /// code; a transport failure is retried while attempts are left, and
    /// otherwise ends the check with its message. The final record carries this
    /// attempt's measurements only.
    pub fn record(self, result: AttemptResult, response_ms: u64, timestamp: Timestamp) -> (r: FetchStep)
        requires
            self.attempts_left >= 1,
        ensures
            match r {
                FetchStep::RetryAfterDelay(next) => {
                    &&& settled(self.attempts_left as nat, result@) is None
                    &&& next.url@ == self.url@
                    &&& next.attempts_left == self.attempts_left - 1
                },
                FetchStep::Done(s) => {
                    &&& settled(self.attempts_left as nat, result@) == Some(outcome_of(s))
                    &&& s.url@ == self.url@
                    &&& s.response_ms == response_ms
                    &&& s.timestamp == timestamp
                },
            },
    {
        match result {
            AttemptResult::Response(code) => FetchStep::Done(
                WebsiteStatus { url: self.url, action_status: Ok(code), response_ms, timestamp },
            ),
            AttemptResult::TransportError(msg) => {
                if self.attempts_left > 1 {
                    FetchStep::RetryAfterDelay(
                        FetchAttempt { url: self.url, attempts_left: self.attempts_left - 1 },
                    )
                } else {
                    FetchStep::Done(
                        WebsiteStatus { url: self.url, action_status: Err(msg), response_ms, timestamp },
                    )
                }
            },
        }
    }
}

/// A check whose every attempt fails in transport makes exactly `retries + 1`
/// attempts and ends in the failure of the last one.
pub proof fn lemma_persistent_failure_exhausts_attempts(retries: nat, results: Seq<Result<u16, Seq<char>>>)
    requires
        results.len() >= retries + 1,
        forall|i: int| 0 <= i < results.len() ==> (#[trigger] results[i]) is Err,
    ensures
        run(retries + 1, results) == (retries + 1, Some(results[retries as int])),
    decreases retries,
{
    if retries > 0 {
        let rest = results.drop_first();
        assert forall|i: int| 0 <= i < rest.len() implies (#[trigger] rest[i]) is Err by {
            assert(rest[i] == results[i + 1]);
        }
        lemma_persistent_failure_exhausts_attempts((retries - 1) as nat, rest);
        assert(rest[retries - 1] == results[retries as int]);
    }
}

/// A check whose first `k - 1` attempts fail in transport and whose `k`-th gets a
/// response, with `k <= retries + 1`, ends after exactly `k` attempts with that
/// response's code.
pub proof fn lemma_first_response_ends_check(retries: nat, k: nat, results: Seq<Result<u16, Seq<char>>>)
    requires
        1 <= k <= retries + 1,
        results.len() >= k,
        forall|i: int| 0 <= i < k - 1 ==> (#[trigger] results[i]) is Err,
        results[k - 1] is Ok,
    ensures
        run(retries + 1, results) == (k, Some(results[k - 1])),
    decreases k,
{
    if k > 1 {
        let rest = results.drop_first();
        assert forall|i: int| 0 <= i < k - 2 implies (#[trigger] rest[i]) is Err by {
            assert(rest[i] == results[i + 1]);
        }
        assert(results[0] is Err);
        assert(rest[k - 2] == results[k - 1]);
        lemma_first_response_ends_check((retries - 1) as nat, (k - 1) as nat, rest);
    }
}

} // verus!
