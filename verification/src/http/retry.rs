//! HTTP retry decisions with exponential backoff.
//!
//! The caller sends each attempt and sleeps; the functions here classify
//! what came back and decide whether to stop, back off, or give up.

use vstd::prelude::*;

use crate::config::{duration_nanos, RetryPolicy};
use crate::error::Error;
use crate::http::response::{parse_error, S3ErrorBody};
use crate::text::{decimal, push_decimal};

verus! {

/// The canonical reason phrase of an HTTP status code, as the `http` crate
/// knows it (`None` for codes it has no phrase for).
pub uninterp spec fn canonical_reason(code: u16) -> Option<Seq<char>>;

/// `http::StatusCode::canonical_reason` of the status code `code`: the
/// contract claims that the result is the function `canonical_reason` of
/// `code`. Valid status codes are 100 to 999.
#[verifier::external_body]
fn status_canonical_reason(code: u16) -> (r: Option<&'static str>)
    requires
        100 <= code <= 999,
    ensures
        match r {
            Some(s) => canonical_reason(code) == Some(s@),
            None => canonical_reason(code) is None,
        },
{
    http::StatusCode::from_u16(code).ok().and_then(|s| s.canonical_reason())
}

/// How an HTTP status code is displayed: the number, a space, and the reason
/// phrase (or `<unknown status code>`).
pub open spec fn status_text_spec(code: u16) -> Seq<char> {
    decimal(code as nat) + " "@ + match canonical_reason(code) {
        Some(r) => r,
        None => "<unknown status code>"@,
    }
}

/// The display text of an HTTP status code, e.g. `503 Service Unavailable`.
pub fn status_text(code: u16) -> (s: String)
    requires
        100 <= code <= 999,
    ensures
        s@ == status_text_spec(code),
{
    let mut s = String::new();
    push_decimal(&mut s, code as u64);
    s.append(" ");
    match status_canonical_reason(code) {
        Some(r) => s.append(r),
        None => s.append("<unknown status code>"),
    }
    s
}

/// 2xx.
pub open spec fn is_success(code: u16) -> bool {
    200 <= code <= 299
}

/// 5xx or 429 (throttling): worth another attempt.
pub open spec fn is_retryable_status(code: u16) -> bool {
    (500 <= code <= 599) || code == 429
}

/// The status classes of a response: 2xx succeeds; throttling (429) and
/// every server error (5xx) are worth another attempt; every other status
/// fails at once.
pub proof fn lemma_status_classes(code: u16)
    ensures
        is_success(code) <==> 200 <= code <= 299,
        is_retryable_status(code) <==> (code == 429 || 500 <= code <= 599),
        is_success(code) ==> !is_retryable_status(code),
        code == 429 ==> is_retryable_status(code),
        code == 404 || code == 403 || code == 400 ==> !is_success(code) && !is_retryable_status(code),
{
}

/// What one attempt came to.
#[derive(Debug)]
pub enum Outcome {
    /// The response is good; the caller keeps it.
    Success,
    /// The attempt failed in a way another attempt may fix.
    Retryable(Error),
    /// The attempt failed for good.
    Fatal(Error),
}

/// Classify a response by its status. On a retryable status the error code
/// is the status text and the message the body; on any other failure the
/// body is read as an S3 error document (`parsed` is its parse, if any).
pub fn classify(code: u16, body: &str, parsed: Option<S3ErrorBody>) -> (o: Outcome)
    requires
        100 <= code <= 999,
    ensures
        200 <= code <= 299 ==> o is Success,
        (code == 429 || 500 <= code <= 599) ==> o is Retryable,
        !(200 <= code <= 299) && code != 429 && !(500 <= code <= 599) ==> o is Fatal,
        is_success(code) ==> o is Success,
        !is_success(code) && is_retryable_status(code) ==> (o matches Outcome::Retryable(
            Error::S3 { code: c, message: m },
        ) && c@ == status_text_spec(code) && m@ == body@),
        !is_success(code) && !is_retryable_status(code) ==> (o matches Outcome::Fatal(Error::S3 {
            code: c,
            message: m,
        }) && match parsed {
            Some(p) => c@ == p.code@ && m@ == p.message@,
            None => c@ == "Unknown"@ && m@ == body@,
        }),
{
    if 200 <= code && code <= 299 {
        return Outcome::Success;
    }
    if (500 <= code && code <= 599) || code == 429 {
        return Outcome::Retryable(Error::S3 { code: status_text(code), message: body.to_owned() });
    }
    Outcome::Fatal(parse_error(body, parsed))
}

/// Classify a HEAD response. HEAD responses carry no body, so failures are
/// mapped from the status alone: 404 is `NotFound`, 403 `AccessDenied`.
pub fn classify_head(code: u16) -> (o: Outcome)
    requires
        100 <= code <= 999,
    ensures
        200 <= code <= 299 ==> o is Success,
        (code == 429 || 500 <= code <= 599) ==> o is Retryable,
        !(200 <= code <= 299) && code != 429 && !(500 <= code <= 599) ==> o is Fatal,
        is_success(code) ==> o is Success,
        !is_success(code) && is_retryable_status(code) ==> (o matches Outcome::Retryable(
            Error::S3 { code: c, message: m },
        ) && c@ == status_text_spec(code) && m@ == Seq::<char>::empty()),
        !is_success(code) && !is_retryable_status(code) ==> (o matches Outcome::Fatal(Error::S3 {
            code: c,
            message: m,
        }) && if code == 404 {
            c@ == "NotFound"@ && m@ == "object does not exist"@
        } else if code == 403 {
            c@ == "AccessDenied"@ && m@ == "access denied"@
        } else {
            c@ == status_text_spec(code) && m@ == Seq::<char>::empty()
        }),
{
    if 200 <= code && code <= 299 {
        return Outcome::Success;
    }
    if (500 <= code && code <= 599) || code == 429 {
        return Outcome::Retryable(Error::S3 { code: status_text(code), message: String::new() });
    }
    if code == 404 {
        Outcome::Fatal(Error::S3 {
            code: "NotFound".to_owned(),
            message: "object does not exist".to_owned(),
        })
    } else if code == 403 {
        Outcome::Fatal(Error::S3 {
            code: "AccessDenied".to_owned(),
            message: "access denied".to_owned(),
        })
    } else {
        Outcome::Fatal(Error::S3 { code: status_text(code), message: String::new() })
    }
}

/// Equal jitter of a delay of `base` nanoseconds with the entropy `entropy`:
/// half the delay plus `entropy` modulo (half + 1), in nanoseconds, capped
/// at `u64::MAX`. Delays of at most one nanosecond are kept as they are.
pub open spec fn jitter_spec(base: u128, entropy: u32) -> u64 {
    if base <= 1 {
        base as u64
    } else {
        let half = base / 2;
        let j = half + (entropy as int) % (half + 1);
        if j > u64::MAX {
            u64::MAX
        } else {
            j as u64
        }
    }
}

/// Equal jitter: `base/2 + entropy % (base/2 + 1)` nanoseconds.
pub fn jittered_with(base: u128, entropy: u32) -> (r: u64)
    ensures
        r == jitter_spec(base, entropy),
{
    if base <= 1 {
        return base as u64;
    }
    let half = base / 2;
    let jitter = (entropy as u128) % (half + 1);
    let total = half + jitter;
    if total > u64::MAX as u128 {
        u64::MAX
    } else {
        total as u64
    }
}

/// The sub-second nanoseconds of `SystemTime::now()` since the epoch (0 if
/// the clock reads before the epoch): cheap entropy for backoff jitter.
/// It depends on the time, so only its range is stated.
#[verifier::external_body]
fn clock_subsec_nanos() -> (n: u32)
    ensures
        n < 1_000_000_000,
{
    std::time::SystemTime::now().duration_since(std::time::UNIX_EPOCH).unwrap_or_default().subsec_nanos()
}

/// Equal jitter of `base` nanoseconds, using the clock as entropy; avoids
/// retry thundering herds when many workers are throttled at once.
pub fn jittered(base: u128) -> (r: u64)
    ensures
        exists|e: u32| e < 1_000_000_000 && r == jitter_spec(base, e),
{
    let e = clock_subsec_nanos();
    jittered_with(base, e)
}

/// The delay after one more failure: double, capped at `max_delay`.
pub open spec fn next_delay(delay: u128, max_delay: u128) -> u128 {
    let doubled = if delay > u128::MAX / 2 { u128::MAX } else { (delay * 2) as u128 };
    if doubled < max_delay {
        doubled
    } else {
        max_delay
    }
}

/// What the caller does next.
#[derive(Debug)]
pub enum Action {
    /// Return the successful response.
    Succeed,
    /// Return this error; no further attempt.
    Fail(Error),
    /// Sleep for the jitter of this many nanoseconds, then try again.
    Backoff(u128),
}

/// The state of a retry loop: which attempt comes next, how many there
/// are, and the current backoff delay (nanoseconds).
#[derive(Debug, Clone, Copy)]
pub struct RetryLoop {
    /// Attempts made so far.
    pub attempt: u32,
    /// Attempts allowed: `max_retries + 1` (saturating).
    pub attempts: u32,
    /// Delay before the next attempt, in nanoseconds.
    pub delay: u128,
    /// Cap on the delay, in nanoseconds.
    pub max_delay: u128,
}

/// What [`RetryLoop::record`] does: the loop after recording `outcome`,
/// and the action it decides.
pub open spec fn record_step(l: RetryLoop, outcome: Outcome) -> (RetryLoop, Action) {
    let counted = RetryLoop { attempt: (l.attempt + 1) as u32, ..l };
    match outcome {
        Outcome::Success => (counted, Action::Succeed),
        Outcome::Fatal(e) => (counted, Action::Fail(e)),
        Outcome::Retryable(e) => if l.attempt + 1 < l.attempts {
            (RetryLoop { delay: next_delay(l.delay, l.max_delay), ..counted }, Action::Backoff(l.delay))
        } else {
            (counted, Action::Fail(e))
        },
    }
}

/// The actions a loop takes when its attempts come to `outcomes`, one after
/// the other: it records outcomes while it backs off, and stops after the
/// first other action, when it has no attempt left, or when the outcomes
/// run out.
pub open spec fn run_actions(l: RetryLoop, outcomes: Seq<Outcome>) -> Seq<Action>
    decreases outcomes.len(),
{
    if outcomes.len() == 0 || l.attempt >= l.attempts {
        Seq::empty()
    } else {
        let (next, a) = record_step(l, outcomes[0]);
        if a is Backoff {
            seq![a] + run_actions(next, outcomes.drop_first())
        } else {
            seq![a]
        }
    }
}

impl RetryLoop {
    /// The loop is consistent: at least one attempt allowed, no more made.
    pub open spec fn wf(self) -> bool {
        1 <= self.attempts && self.attempt <= self.attempts
    }

    /// A fresh loop for `policy`.
    pub fn new(policy: &RetryPolicy) -> (l: Self)
        ensures
            l.wf(),
            l.attempt == 0,
            l.attempts == if policy.max_retries == u32::MAX {
                u32::MAX
            } else {
                (policy.max_retries + 1) as u32
            },
            l.delay == duration_nanos(policy.base_delay),
            l.max_delay == duration_nanos(policy.max_delay),
    {
        let attempts = if policy.max_retries == u32::MAX { u32::MAX } else { policy.max_retries + 1 };
        RetryLoop {
            attempt: 0,
            attempts,
            delay: policy.base_delay.as_nanos(),
            max_delay: policy.max_delay.as_nanos(),
        }
    }

    /// Whether another attempt may be made.
    pub fn has_attempt_left(&self) -> (b: bool)
        ensures
            b == (self.attempt < self.attempts),
    {
        self.attempt < self.attempts
    }

    /// Record the outcome of the current attempt and decide what to do.
    ///
    /// Success and fatal errors end the loop at once. A retryable error
    /// backs off with the current delay (then doubles it, up to the cap)
    /// unless it came from the last allowed attempt, in which case it is
    /// returned.
    pub fn record(&mut self, outcome: Outcome) -> (a: Action)
        requires
            old(self).wf(),
            old(self).attempt < old(self).attempts,
        ensures
            final(self).wf(),
            final(self).attempts == old(self).attempts,
            final(self).max_delay == old(self).max_delay,
            final(self).attempt == old(self).attempt + 1,
            (*final(self), a) == record_step(*old(self), outcome),
            match outcome {
                Outcome::Success => a is Succeed,
                Outcome::Fatal(e) => a == Action::Fail(e),
                Outcome::Retryable(e) => if old(self).attempt + 1 < old(self).attempts {
                    a == Action::Backoff(old(self).delay) && final(self).delay == next_delay(
                        old(self).delay,
                        old(self).max_delay,
                    )
                } else {
                    a == Action::Fail(e)
                },
            },
    {
        self.attempt = self.attempt + 1;
        match outcome {
            Outcome::Success => Action::Succeed,
            Outcome::Fatal(e) => Action::Fail(e),
            Outcome::Retryable(e) => {
                if self.attempt < self.attempts {
                    let current = self.delay;
                    let doubled = if current > u128::MAX / 2 { u128::MAX } else { current * 2 };
                    self.delay = if doubled < self.max_delay { doubled } else { self.max_delay };
                    Action::Backoff(current)
                } else {
                    Action::Fail(e)
                }
            },
        }
    }

    /// The error returned when the loop runs out of attempts without an
    /// outcome (which `record` never leaves it to do).
    pub fn exhausted() -> (e: Error)
        ensures
            e matches Error::Internal(m) && m@ == "no attempts made"@,
    {
        Error::Internal("no attempts made".to_owned())
    }
}

/// The delay before the retry that follows `k` retryable failures, for a
/// loop started with delay `base` and cap `max_delay`.
pub open spec fn backoff_delay(base: u128, max_delay: u128, k: nat) -> u128
    decreases k,
{
    if k == 0 {
        base
    } else {
        next_delay(backoff_delay(base, max_delay, (k - 1) as nat), max_delay)
    }
}

/// After the first failure, every delay is at most the cap; when the
/// initial delay is at most the cap, the delays never shrink from one
/// failure to the next and never exceed the cap.
pub proof fn lemma_backoff_bounded(base: u128, max_delay: u128, k: nat)
    ensures
        k >= 1 ==> backoff_delay(base, max_delay, k) <= max_delay,
        base <= max_delay ==> backoff_delay(base, max_delay, k) <= max_delay,
        base <= max_delay ==> backoff_delay(base, max_delay, k) <= backoff_delay(
            base,
            max_delay,
            k + 1,
        ),
    decreases k,
{
    if k > 0 {
        lemma_backoff_bounded(base, max_delay, (k - 1) as nat);
    }
}

/// When no cap interferes, each failure doubles the delay:
/// `backoff_delay(base, max, k) == base * 2^k` while that stays below the cap.
pub proof fn lemma_backoff_doubles(base: u128, max_delay: u128, k: nat)
    requires
        base * vstd::arithmetic::power2::pow2(k) < max_delay,
    ensures
        backoff_delay(base, max_delay, k) == base * vstd::arithmetic::power2::pow2(k),
    decreases k,
{
    if k == 0 {
        vstd::arithmetic::power2::lemma2_to64();
    } else {
        let p = vstd::arithmetic::power2::pow2((k - 1) as nat);
        vstd::arithmetic::power2::lemma_pow2_unfold(k);
        assert(base * vstd::arithmetic::power2::pow2(k) == 2 * (base * p)) by (nonlinear_arith)
            requires
                vstd::arithmetic::power2::pow2(k) == 2 * p,
        ;
        assert(base * p <= base * vstd::arithmetic::power2::pow2(k)) by (nonlinear_arith)
            requires
                vstd::arithmetic::power2::pow2(k) == 2 * p,
        ;
        lemma_backoff_doubles(base, max_delay, (k - 1) as nat);
    }
}

/// The jittered sleep for a delay `base` lies between half the delay and
/// the delay itself.
pub proof fn lemma_jitter_range(base: u128, entropy: u32)
    requires
        base <= u64::MAX,
    ensures
        base / 2 <= jitter_spec(base, entropy) <= base,
{
    if base > 1 {
        let half = base / 2;
        assert((entropy as int) % (half + 1) <= half) by (nonlinear_arith)
            requires
                half >= 0,
        ;
        assert(half + half <= base);
    }
}

/// A loop started with delay `base` gives the same delays one failure
/// later as a loop started with the next delay.
proof fn lemma_backoff_shift(base: u128, max_delay: u128, k: nat)
    ensures
        backoff_delay(next_delay(base, max_delay), max_delay, k) == backoff_delay(
            base,
            max_delay,
            k + 1,
        ),
    decreases k,
{
    let nd = next_delay(base, max_delay);
    if k == 0 {
        assert(backoff_delay(base, max_delay, 1) == next_delay(backoff_delay(base, max_delay, 0), max_delay));
    } else {
        lemma_backoff_shift(base, max_delay, (k - 1) as nat);
        assert(backoff_delay(nd, max_delay, k) == next_delay(backoff_delay(nd, max_delay, (k - 1) as nat), max_delay));
        assert(backoff_delay(base, max_delay, k + 1) == next_delay(backoff_delay(base, max_delay, k), max_delay));
    }
}

/// The retry law over a whole run of attempts. Started at attempt `a` of
/// `n` with delay `d`, a loop whose attempts come to `outcomes`:
/// - makes at most `n - a` attempts;
/// - backs off after each attempt but the last, each of them retryable,
///   the `i`-th time by `backoff_delay(d, cap, i)`;
/// - ends at the first success (`Succeed`) or fatal error (`Fail` with
///   it), or with `Fail` and the last retryable error once the attempts
///   are used up;
/// - when it has an attempt left, ends (takes an action other than backing
///   off) whenever at least `n - a` outcomes are given.
pub proof fn lemma_retry_run(l: RetryLoop, outcomes: Seq<Outcome>)
    requires
        l.wf(),
    ensures
        ({
            let acts = run_actions(l, outcomes);
            &&& acts.len() <= l.attempts - l.attempt
            &&& acts.len() <= outcomes.len()
            &&& forall|i: int|
                0 <= i < acts.len() - 1 ==> #[trigger] acts[i] == Action::Backoff(
                    backoff_delay(l.delay, l.max_delay, i as nat),
                ) && outcomes[i] is Retryable
            &&& acts.len() > 0 ==> {
                let k = acts.len() - 1;
                match outcomes[k] {
                    Outcome::Success => acts[k] is Succeed,
                    Outcome::Fatal(e) => acts[k] == Action::Fail(e),
                    Outcome::Retryable(e) => if l.attempt + k + 1 < l.attempts {
                        acts[k] == Action::Backoff(backoff_delay(l.delay, l.max_delay, k as nat))
                    } else {
                        acts[k] == Action::Fail(e)
                    },
                }
            }
            &&& l.attempt < l.attempts && outcomes.len() >= l.attempts - l.attempt ==> acts.len() > 0 && !(
            acts[acts.len() - 1] is Backoff)
        }),
    decreases outcomes.len(),
{
    let acts = run_actions(l, outcomes);
    if outcomes.len() == 0 || l.attempt >= l.attempts {
    } else {
        let (next, a) = record_step(l, outcomes[0]);
        if a is Backoff {
            let rest = run_actions(next, outcomes.drop_first());
            lemma_retry_run(next, outcomes.drop_first());
            assert(acts == seq![a] + rest);
            assert forall|j: nat| #[trigger] backoff_delay(next.delay, l.max_delay, j)
                == backoff_delay(l.delay, l.max_delay, j + 1) by {
                lemma_backoff_shift(l.delay, l.max_delay, j);
            }
            assert forall|i: int| 0 <= i < acts.len() - 1 implies #[trigger] acts[i]
                == Action::Backoff(backoff_delay(l.delay, l.max_delay, i as nat))
                && outcomes[i] is Retryable by {
                if i > 0 {
                    assert(acts[i] == rest[i - 1]);
                    assert(outcomes[i] == outcomes.drop_first()[i - 1]);
                    assert(backoff_delay(next.delay, l.max_delay, (i - 1) as nat)
                        == backoff_delay(l.delay, l.max_delay, i as nat));
                }
            }
            if acts.len() > 1 {
                let k = acts.len() - 1;
                assert(acts[k] == rest[k - 1]);
                assert(outcomes[k] == outcomes.drop_first()[k - 1]);
                assert(backoff_delay(next.delay, l.max_delay, (k - 1) as nat)
                    == backoff_delay(l.delay, l.max_delay, k as nat));
            }
        }
    }
}

} // verus!
