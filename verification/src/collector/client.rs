//! The decisions of the ingest client: where it posts, which answers it
//! retries, and how long it waits between attempts.
use crate::text::{self, concat_str, decimal_string};
use vstd::prelude::*;

verus! {

/// Where the collector sends its snapshots.
#[derive(Debug, Clone)]
pub struct CollectorClientConfig {
    pub base_url: String,
    pub ingest_token: Option<String>,
}

/// Attempts per request.
pub const MAX_ATTEMPTS: usize = 3;

/// The wait after the first failed attempt.
pub const INITIAL_BACKOFF_MS: u64 = 250;

/// The longest wait between attempts.
pub const MAX_BACKOFF_MS: u64 = 5000;

/// The ingest endpoint, relative to the backend's base URL.
pub const INGEST_PATH: &'static str = "/internal/v1/ingest";

/// `s` without the trailing occurrences of `c`.
pub open spec fn trim_end_char(s: Seq<char>, c: char) -> Seq<char>
    decreases s.len(),
{
    if s.len() > 0 && s.last() == c {
        trim_end_char(s.drop_last(), c)
    } else {
        s
    }
}

/// `s` without the leading occurrences of `c`.
pub open spec fn trim_start_char(s: Seq<char>, c: char) -> Seq<char>
    decreases s.len(),
{
    if s.len() > 0 && s[0] == c {
        trim_start_char(s.drop_first(), c)
    } else {
        s
    }
}

/// The base URL without trailing slashes.
pub fn normalized_base_url(base_url: &str) -> (r: String)
    ensures
        r@ == trim_end_char(base_url@, '/'),
{
    let n = base_url.unicode_len();
    let mut end: usize = n;
    assert(base_url@.take(n as int) =~= base_url@);
    while end > 0 && base_url.get_char(end - 1) == '/'
        invariant
            n == base_url@.len(),
            end <= n,
            trim_end_char(base_url@, '/') == trim_end_char(base_url@.take(end as int), '/'),
        decreases end,
    {
        proof {
            let t = base_url@.take(end as int);
            assert(t.drop_last() =~= base_url@.take(end - 1));
        }
        end = end - 1;
    }
    proof {
        assert(base_url@.take(n as int) =~= base_url@);
        let t = base_url@.take(end as int);
        if end > 0 {
            assert(t.last() == base_url@[end - 1]);
        }
    }
    base_url.substring_char(0, end).to_owned()
}

/// A request path without leading slashes, as it is joined to the base URL.
pub fn relative_path(path: &str) -> (r: String)
    ensures
        r@ == trim_start_char(path@, '/'),
{
    let n = path.unicode_len();
    let mut start: usize = 0;
    assert(path@.skip(0) =~= path@);
    while start < n && path.get_char(start) == '/'
        invariant
            n == path@.len(),
            start <= n,
            trim_start_char(path@, '/') == trim_start_char(path@.skip(start as int), '/'),
        decreases n - start,
    {
        proof {
            let t = path@.skip(start as int);
            assert(t.drop_first() =~= path@.skip(start + 1));
        }
        start = start + 1;
    }
    proof {
        assert(path@.skip(0) =~= path@);
    }
    path.substring_char(start, n).to_owned()
}

/// Statuses worth another attempt: 408, 429 and every 5xx.
pub open spec fn retryable(status: u16) -> bool {
    status == 408 || status == 429 || (500 <= status && status <= 599)
}

/// Whether an HTTP status is worth another attempt.
pub fn is_retryable_status(status: u16) -> (r: bool)
    ensures
        r == retryable(status),
{
    status == 408 || status == 429 || (500 <= status && status <= 599)
}

/// The wait after `backoff_ms`: doubled, at most `MAX_BACKOFF_MS`.
pub open spec fn next_backoff(backoff_ms: u64) -> u64 {
    if backoff_ms * 2 > MAX_BACKOFF_MS {
        MAX_BACKOFF_MS
    } else {
        (backoff_ms * 2) as u64
    }
}

/// The wait after `backoff_ms` (see `next_backoff`).
pub fn next_backoff_ms(backoff_ms: u64) -> (r: u64)
    ensures
        r == next_backoff(backoff_ms),
{
    if backoff_ms > MAX_BACKOFF_MS / 2 {
        MAX_BACKOFF_MS
    } else {
        backoff_ms * 2
    }
}

/// How an attempt went.
#[derive(Debug)]
pub enum AttemptResult {
    /// The backend answered with a success status.
    Success,
    /// The backend answered with another status and this body.
    HttpStatus { status: u16, body: String },
    /// The request failed before an answer, for this reason.
    Transport { error: String },
}

/// What to do after an attempt.
#[derive(Debug)]
pub enum RetryDecision {
    /// Read the answer.
    Accept,
    /// Fail with the backend's status and body.
    Fail { status: u16, body: String },
    /// Wait this long, then try again.
    Retry { wait_ms: u64 },
    /// Fail: every attempt failed, the last one for this reason.
    GiveUp { attempts: usize, last_error: String },
}

/// The progress of one request's attempts.
#[derive(Debug)]
pub struct RetryState {
    /// The number of the attempt under way, from 1.
    pub attempt: usize,
    /// The wait before the next attempt.
    pub backoff_ms: u64,
    /// Why the last failed attempt failed.
    pub last_error: Option<String>,
}

/// How a failed attempt is reported.
pub open spec fn failure_text(result: AttemptResult) -> Seq<char> {
    match result {
        AttemptResult::HttpStatus { status, body } => "HTTP "@ + text::decimal_seq(status as nat) + ": "@ + body@,
        AttemptResult::Transport { error } => error@,
        AttemptResult::Success => seq![],
    }
}

impl RetryState {
    /// The state before the first attempt.
    pub fn new() -> (s: RetryState)
        ensures
            s.attempt == 1,
            s.backoff_ms == INITIAL_BACKOFF_MS,
            s.last_error is None,
    {
        RetryState { attempt: 1, backoff_ms: INITIAL_BACKOFF_MS, last_error: None }
    }

    /// Decides after an attempt. A success is accepted; a status that is not
    /// retryable fails at once; any other failure is retried after the
    /// current wait (which then doubles, up to `MAX_BACKOFF_MS`), unless it
    /// was the last of `MAX_ATTEMPTS` attempts.
    pub fn record(&mut self, result: AttemptResult) -> (d: RetryDecision)
        requires
            1 <= old(self).attempt <= MAX_ATTEMPTS,
        ensures
            result is Success ==> d is Accept,
            (result is HttpStatus && !retryable(result->status)) ==> (d is Fail && d->status
                == result->status && d->body@ == result->body@),
            (result is Transport || (result is HttpStatus && retryable(result->status))) ==> (
                if old(self).attempt < MAX_ATTEMPTS {
                    &&& d matches RetryDecision::Retry { wait_ms } && wait_ms == old(self).backoff_ms
                    &&& final(self).attempt == old(self).attempt + 1
                    &&& final(self).backoff_ms == next_backoff(old(self).backoff_ms)
                    &&& final(self).last_error matches Some(e) && e@ == failure_text(result)
                } else {
                    d matches RetryDecision::GiveUp { attempts, last_error } && attempts == MAX_ATTEMPTS
                        && last_error@ == failure_text(result)
                }),
            1 <= final(self).attempt <= MAX_ATTEMPTS,
    {
        let ghost r = result;
        let error = match result {
            AttemptResult::Success => return RetryDecision::Accept,
            AttemptResult::HttpStatus { status, body } => {
                if !is_retryable_status(status) {
                    return RetryDecision::Fail { status, body };
                }
                concat_str(
                    concat_str(concat_str("HTTP ", decimal_string(status as u64).as_str()).as_str(), ": ").as_str(),
                    body.as_str(),
                )
            },
            AttemptResult::Transport { error } => error,
        };
        assert(error@ == failure_text(r));
        if self.attempt < MAX_ATTEMPTS {
            let wait_ms = self.backoff_ms;
            self.backoff_ms = next_backoff_ms(self.backoff_ms);
            self.attempt = self.attempt + 1;
            self.last_error = Some(error);
            return RetryDecision::Retry { wait_ms };
        }
        RetryDecision::GiveUp { attempts: MAX_ATTEMPTS, last_error: error }
    }
}

} // verus!
