//! The decisions of batched block fetching: how the two sub-calls' outcomes
//! combine, which failures are retried, and the exponential backoff
//! schedule between attempts.

use vstd::prelude::*;

verus! {

/// Why fetching a block's header and receipts failed.
#[derive(Clone, Copy, Debug, PartialEq, Eq, Structural)]
pub enum FetchError {
    /// The batched round trip itself failed.
    Transport,
    /// The receipts call failed and the header call succeeded.
    ReceiptsFailed,
    /// The header call failed and the receipts call succeeded.
    HeaderFailed,
    /// Both calls failed.
    BothFailed,
}

/// Whether a failure is worth another attempt. Every failure is treated as
/// transient.
pub fn should_retry(error: &FetchError) -> (r: bool)
    ensures
        r,
{
    match error {
        FetchError::Transport => true,
        FetchError::ReceiptsFailed => true,
        FetchError::HeaderFailed => true,
        FetchError::BothFailed => true,
    }
}

/// Combines the outcomes of the batch's receipts call and header call: the
/// pair where both succeeded, else the error that names which failed.
pub fn combine_batch<R, H>(receipts: Option<R>, header: Option<H>) -> (r: Result<(R, H), FetchError>)
    ensures
        match (receipts, header) {
            (Some(a), Some(b)) => r == Ok::<(R, H), FetchError>((a, b)),
            (None, Some(_)) => r == Err::<(R, H), FetchError>(FetchError::ReceiptsFailed),
            (Some(_), None) => r == Err::<(R, H), FetchError>(FetchError::HeaderFailed),
            (None, None) => r == Err::<(R, H), FetchError>(FetchError::BothFailed),
        },
{
    match (receipts, header) {
        (Some(a), Some(b)) => Ok((a, b)),
        (None, Some(_)) => Err(FetchError::ReceiptsFailed),
        (Some(_), None) => Err(FetchError::HeaderFailed),
        (None, None) => Err(FetchError::BothFailed),
    }
}

/// Retry settings; the backoff multiplier is given in thousandths
/// (2000 doubles the delay).
#[derive(Clone, Copy, Debug, PartialEq, Eq, Structural)]
pub struct RetryConfig {
    pub max_attempts: u32,
    pub initial_backoff_ms: u64,
    pub max_backoff_ms: u64,
    pub backoff_multiplier_permille: u64,
}

impl RetryConfig {
    pub fn new(max_attempts: u32, initial_backoff: u64, max_backoff: u64, backoff_multiplier_permille: u64) -> (r: RetryConfig)
        ensures
            r == (RetryConfig {
                max_attempts,
                initial_backoff_ms: initial_backoff,
                max_backoff_ms: max_backoff,
                backoff_multiplier_permille,
            }),
    {
        RetryConfig {
            max_attempts,
            initial_backoff_ms: initial_backoff,
            max_backoff_ms: max_backoff,
            backoff_multiplier_permille,
        }
    }

    /// The delay that follows `current`: `min(current * multiplier, max)`.
    pub open spec fn next_backoff(self, current: int) -> int {
        let grown = current * self.backoff_multiplier_permille / 1000;
        if grown < self.max_backoff_ms {
            grown
        } else {
            self.max_backoff_ms as int
        }
    }

    /// The delay before attempt `k + 2`, that is after the `k + 1`-th failure.
    pub open spec fn backoff_after(self, k: nat) -> int
        decreases k,
    {
        if k == 0 {
            self.initial_backoff_ms as int
        } else {
            self.next_backoff(self.backoff_after((k - 1) as nat))
        }
    }
}

impl Default for RetryConfig {
    /// Three attempts, 100 ms first delay, doubling, at most 10 s.
    fn default() -> (r: RetryConfig)
        ensures
            r == (RetryConfig {
                max_attempts: 3,
                initial_backoff_ms: 100,
                max_backoff_ms: 10_000,
                backoff_multiplier_permille: 2000,
            }),
    {
        RetryConfig {
            max_attempts: 3,
            initial_backoff_ms: 100,
            max_backoff_ms: 10_000,
            backoff_multiplier_permille: 2000,
        }
    }
}

/// What to do after a failed attempt.
#[derive(Clone, Copy, Debug, PartialEq, Eq, Structural)]
pub enum RetryDecision {
    /// Sleep for the delay, then make another attempt.
    RetryAfter { delay_ms: u64 },
    /// Stop and report the last error.
    GiveUp,
}

/// The progress of one retried operation: failed attempts so far and the
/// delay that the next retry will wait.
#[derive(Clone, Copy, Debug, PartialEq, Eq, Structural)]
pub struct RetryState {
    pub attempts: u32,
    pub backoff_ms: u64,
}

impl RetryState {
    /// The state before the first attempt.
    pub fn start(config: &RetryConfig) -> (r: RetryState)
        ensures
            r.attempts == 0,
            r.backoff_ms == config.initial_backoff_ms,
    {
        RetryState { attempts: 0, backoff_ms: config.initial_backoff_ms }
    }

    /// The state and decision that follow a failed attempt.
    pub open spec fn after_failure(self, config: RetryConfig) -> (RetryState, RetryDecision) {
        let attempts = if self.attempts < u32::MAX {
            (self.attempts + 1) as u32
        } else {
            self.attempts
        };
        if attempts >= config.max_attempts {
            (RetryState { attempts, ..self }, RetryDecision::GiveUp)
        } else {
            (
                RetryState { attempts, backoff_ms: config.next_backoff(self.backoff_ms as int) as u64 },
                RetryDecision::RetryAfter { delay_ms: self.backoff_ms },
            )
        }
    }

    /// Records a failed attempt. The operation is given up once the attempts
    /// reach `max_attempts` (at least one attempt is always made); otherwise
    /// the current delay is returned and the next one becomes
    /// `min(delay * multiplier, max_backoff)`.
    pub fn on_failure(&mut self, config: &RetryConfig, error: &FetchError) -> (d: RetryDecision)
        ensures
            (*final(self), d) == old(self).after_failure(*config),
    {
        if self.attempts < u32::MAX {
            self.attempts = self.attempts + 1;
        }
        if !should_retry(error) || self.attempts >= config.max_attempts {
            return RetryDecision::GiveUp;
        }
        let delay = self.backoff_ms;
        proof {
            let a = delay as int;
            let b = config.backoff_multiplier_permille as int;
            assert(a * b <= u64::MAX as int * u64::MAX as int) by (nonlinear_arith)
                requires
                    0 <= a <= u64::MAX,
                    0 <= b <= u64::MAX,
            ;
            assert(u64::MAX as int * u64::MAX as int <= u128::MAX) by (nonlinear_arith);
            assert(a * b >= 0) by (nonlinear_arith)
                requires
                    0 <= a,
                    0 <= b,
            ;
        }
        let grown: u128 = (delay as u128) * (config.backoff_multiplier_permille as u128) / 1000;
        self.backoff_ms = if grown < config.max_backoff_ms as u128 {
            grown as u64
        } else {
            config.max_backoff_ms
        };
        RetryDecision::RetryAfter { delay_ms: delay }
    }
}

/// The state after `k` failed attempts, starting from `RetryState::start`.
pub open spec fn state_after(config: RetryConfig, k: nat) -> RetryState
    decreases k,
{
    if k == 0 {
        RetryState { attempts: 0, backoff_ms: config.initial_backoff_ms }
    } else {
        state_after(config, (k - 1) as nat).after_failure(config).0
    }
}

proof fn lemma_backoff_in_range(config: RetryConfig, k: nat)
    ensures
        0 <= config.backoff_after(k) <= u64::MAX,
    decreases k,
{
    if k > 0 {
        lemma_backoff_in_range(config, (k - 1) as nat);
        let x = config.backoff_after((k - 1) as nat);
        let m = config.backoff_multiplier_permille as int;
        assert(x * m >= 0) by (nonlinear_arith)
            requires
                x >= 0,
                m >= 0,
        ;
    }
}

/// Lemma: for an operation that fails every time, failure `k` (counting
/// from zero) is answered by a retry after `backoff_after(k)` while
/// `k + 1 < max_attempts`, and by giving up when `k + 1` reaches
/// `max_attempts` (or at once where `max_attempts` is zero): the operation
/// is attempted `max_attempts` times, with delays `initial_backoff`, then
/// each `min(previous * multiplier, max_backoff)`.
pub proof fn lemma_retry_schedule(config: RetryConfig, k: nat)
    requires
        k == 0 || k < config.max_attempts,
    ensures
        state_after(config, k).attempts == k,
        state_after(config, k).backoff_ms == config.backoff_after(k),
        k + 1 < config.max_attempts ==> state_after(config, k).after_failure(config).1 == (RetryDecision::RetryAfter {
            delay_ms: config.backoff_after(k) as u64,
        }),
        k + 1 >= config.max_attempts ==> state_after(config, k).after_failure(config).1 == RetryDecision::GiveUp,
    decreases k,
{
    lemma_backoff_in_range(config, k);
    if k > 0 {
        lemma_retry_schedule(config, (k - 1) as nat);
        lemma_backoff_in_range(config, (k - 1) as nat);
    }
}

} // verus!
