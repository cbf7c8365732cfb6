//! Classification of upstream failures into retry strategies.
use vstd::prelude::*;
use crate::text::{occurs_in, str_contains};

verus! {

/// Base delay of exponential backoff, in milliseconds.
pub const BACKOFF_BASE_MS: u64 = 500;
/// Upper bound of exponential backoff, in milliseconds.
pub const BACKOFF_CAP_MS: u64 = 8000;
/// Delay before retrying after an authentication or permission failure.
pub const AUTH_RETRY_DELAY_MS: u64 = 200;
/// Upper bound on the number of attempts a request may make.
pub const MAX_RETRY_ATTEMPTS: usize = 3;

/// How, and after how long, a failed upstream call is retried.
pub enum RetryStrategy {
    /// The failure is surfaced to the client.
    NoRetry,
    /// Retry after a fixed number of milliseconds.
    FixedDelay(u64),
    /// Retry after the number of seconds the upstream asked for.
    RetryAfter(u64),
    /// Retry after `min(cap_ms, base_ms * 2^attempt)` milliseconds.
    ExponentialBackoff { base_ms: u64, cap_ms: u64, attempt: u32 },
}

/// The statuses after which the account that failed is marked rate limited.
pub open spec fn rate_limit_status(status: u16) -> bool {
    status == 429 || status == 500 || status == 503 || status == 529
}

/// The statuses after which the next attempt uses another account.
pub open spec fn rotating_status(status: u16) -> bool {
    status == 401 || status == 403 || rate_limit_status(status)
}

/// The body of a 400 reply mentions a corrupted thinking signature.
pub open spec fn signature_text(body: Seq<char>) -> bool {
    occurs_in(body, "Invalid `signature`"@)
    || occurs_in(body, "thinking.signature"@)
    || occurs_in(body, "Invalid signature"@)
    || occurs_in(body, "Corrupted thought signature"@)
}

/// A failure that is repaired by amending the prompt and retrying on the same account.
pub open spec fn signature_failure(status: u16, body: Seq<char>) -> bool {
    status == 400 && signature_text(body)
}

/// The strategy for a failure with `status`, reply `body`, the `Retry-After`
/// header read as seconds, on the given zero-based attempt.
pub open spec fn strategy_for(status: u16, body: Seq<char>, retry_after: Option<u64>, attempt: u32) -> RetryStrategy {
    if status == 401 || status == 403 {
        RetryStrategy::FixedDelay(AUTH_RETRY_DELAY_MS)
    } else if (status == 429 || status == 503) && retry_after is Some {
        RetryStrategy::RetryAfter(retry_after->0)
    } else if rate_limit_status(status) {
        RetryStrategy::ExponentialBackoff { base_ms: BACKOFF_BASE_MS, cap_ms: BACKOFF_CAP_MS, attempt }
    } else if signature_failure(status, body) {
        RetryStrategy::FixedDelay(0)
    } else {
        RetryStrategy::NoRetry
    }
}

/// `min(cap, base * 2^n)`, unfolded one doubling at a time.
pub open spec fn backoff_ms(base: u64, cap: u64, n: nat) -> int
    decreases n,
{
    if n == 0 {
        if base <= cap { base as int } else { cap as int }
    } else {
        let prev = backoff_ms(base, cap, (n - 1) as nat);
        if 2 * prev <= cap { 2 * prev } else { cap as int }
    }
}

/// Seconds as milliseconds, saturating at `u64::MAX`.
pub open spec fn seconds_to_ms(secs: u64) -> int {
    if secs * 1000 > u64::MAX { u64::MAX as int } else { secs * 1000 }
}

/// How long to wait before the retry a strategy asks for; zero for `NoRetry`.
pub open spec fn delay_of(s: RetryStrategy) -> int {
    match s {
        RetryStrategy::NoRetry => 0,
        RetryStrategy::FixedDelay(ms) => ms as int,
        RetryStrategy::RetryAfter(secs) => seconds_to_ms(secs),
        RetryStrategy::ExponentialBackoff { base_ms, cap_ms, attempt } => backoff_ms(base_ms, cap_ms, attempt as nat),
    }
}

/// `max(2, min(MAX_RETRY_ATTEMPTS, pool_size + 1))`.
pub open spec fn attempts_for(pool_size: usize) -> int {
    let bounded = if pool_size + 1 < MAX_RETRY_ATTEMPTS { pool_size + 1 } else { MAX_RETRY_ATTEMPTS as int };
    if bounded < 2 { 2 } else { bounded }
}

impl RetryStrategy {
    /// Whether this strategy asks for another attempt.
    pub open spec fn retries(self) -> bool {
        !(self is NoRetry)
    }

    /// Whether this strategy asks for another attempt.
    pub fn permits_retry(&self) -> (r: bool)
        ensures
            r == self.retries(),
    {
        match self {
            RetryStrategy::NoRetry => false,
            _ => true,
        }
    }

    /// The wait before the retry, in milliseconds.
    pub fn delay_ms(&self) -> (r: u64)
        ensures
            r == delay_of(*self),
    {
        match self {
            RetryStrategy::NoRetry => 0,
            RetryStrategy::FixedDelay(ms) => *ms,
            RetryStrategy::RetryAfter(secs) => {
                if *secs > u64::MAX / 1000 {
                    u64::MAX
                } else {
                    *secs * 1000
                }
            },
            RetryStrategy::ExponentialBackoff { base_ms, cap_ms, attempt } => {
                exponential_delay(*base_ms, *cap_ms, *attempt)
            },
        }
    }
}

/// `min(cap, base * 2^attempt)` without overflow.
pub fn exponential_delay(base: u64, cap: u64, attempt: u32) -> (r: u64)
    ensures
        r == backoff_ms(base, cap, attempt as nat),
{
    let mut d: u64 = if base <= cap { base } else { cap };
    let mut n: u32 = 0;
    while n < attempt
        invariant
            n <= attempt,
            d == backoff_ms(base, cap, n as nat),
            d <= cap,
        decreases attempt - n,
    {
        if d <= cap / 2 {
            d = 2 * d;
        } else {
            d = cap;
        }
        n = n + 1;
    }
    d
}

/// Whether a failure with `status` marks the account rate limited.
pub fn is_rate_limit_status(status: u16) -> (r: bool)
    ensures
        r == rate_limit_status(status),
{
    status == 429 || status == 500 || status == 503 || status == 529
}

/// Whether the next attempt after a failure with `status` uses another account.
pub fn should_rotate_account(status: u16) -> (r: bool)
    ensures
        r == rotating_status(status),
{
    status == 401 || status == 403 || is_rate_limit_status(status)
}

/// Whether `body` names a corrupted thinking signature.
pub fn mentions_signature(body: &str) -> (r: bool)
    ensures
        r == signature_text(body@),
{
    str_contains(body, "Invalid `signature`")
    || str_contains(body, "thinking.signature")
    || str_contains(body, "Invalid signature")
    || str_contains(body, "Corrupted thought signature")
}

/// Whether a failure is repaired by amending the prompt on the same account.
pub fn is_signature_failure(status: u16, body: &str) -> (r: bool)
    ensures
        r == signature_failure(status, body@),
{
    status == 400 && mentions_signature(body)
}

/// The retry strategy for an upstream failure.
pub fn determine_retry_strategy(status: u16, body: &str, retry_after: Option<u64>, attempt: u32) -> (r: RetryStrategy)
    ensures
        r == strategy_for(status, body@, retry_after, attempt),
{
    if status == 401 || status == 403 {
        RetryStrategy::FixedDelay(AUTH_RETRY_DELAY_MS)
    } else if (status == 429 || status == 503) && retry_after.is_some() {
        RetryStrategy::RetryAfter(retry_after.unwrap())
    } else if is_rate_limit_status(status) {
        RetryStrategy::ExponentialBackoff { base_ms: BACKOFF_BASE_MS, cap_ms: BACKOFF_CAP_MS, attempt }
    } else if is_signature_failure(status, body) {
        RetryStrategy::FixedDelay(0)
    } else {
        RetryStrategy::NoRetry
    }
}

/// Reads a whole decimal number, such as a `Retry-After` header given in
/// seconds; `None` for any other form (an HTTP date, a fraction, a sign, a
/// value beyond `u64`).
pub fn parse_decimal(header: &str) -> (r: Option<u64>)
    ensures
        r == decimal_value(header@),
{
    let cs = crate::text::chars_of(header);
    if cs.len() == 0 {
        return None;
    }
    let mut acc: u64 = 0;
    let mut i: usize = 0;
    while i < cs.len()
        invariant
            i <= cs@.len(),
            cs@ == header@,
            acc == digits_value(cs@.subrange(0, i as int)),
            all_digits(cs@.subrange(0, i as int)),
        decreases cs@.len() - i,
    {
        let c = cs[i];
        assert(cs@.subrange(0, i + 1).drop_last() =~= cs@.subrange(0, i as int));
        if !('0' <= c && c <= '9') {
            return None;
        }
        let d = (c as u32 - '0' as u32) as u64;
        if acc > (u64::MAX - d) / 10 {
            proof {
                if all_digits(cs@) {
                    lemma_prefix_value_le(cs@, i + 1);
                }
            }
            return None;
        }
        acc = acc * 10 + d;
        i = i + 1;
    }
    assert(cs@.subrange(0, cs@.len() as int) =~= cs@);
    Some(acc)
}

/// Every character of `s` is a decimal digit.
pub open spec fn all_digits(s: Seq<char>) -> bool {
    forall|i: int| 0 <= i < s.len() ==> '0' <= #[trigger] s[i] <= '9'
}

/// The number that the decimal digits `s` write.
pub open spec fn digits_value(s: Seq<char>) -> int
    decreases s.len(),
{
    if s.len() == 0 {
        0
    } else {
        digits_value(s.drop_last()) * 10 + (s.last() as int - '0' as int)
    }
}

/// The value of a non-empty string of decimal digits, when it fits in `u64`.
pub open spec fn decimal_value(s: Seq<char>) -> Option<u64> {
    if s.len() > 0 && all_digits(s) && digits_value(s) <= u64::MAX {
        Some(digits_value(s) as u64)
    } else {
        None
    }
}

proof fn lemma_prefix_value_le(s: Seq<char>, i: int)
    requires
        all_digits(s),
        0 <= i <= s.len(),
    ensures
        0 <= digits_value(s.subrange(0, i)) <= digits_value(s),
    decreases s.len(),
{
    if s.len() == 0 {
        assert(s.subrange(0, i) =~= s);
    } else if i == s.len() {
        assert(s.subrange(0, i) =~= s);
        lemma_value_nonneg(s);
    } else {
        let t = s.drop_last();
        assert(t.subrange(0, i) =~= s.subrange(0, i));
        lemma_prefix_value_le(t, i);
        lemma_value_nonneg(t);
    }
}

proof fn lemma_value_nonneg(s: Seq<char>)
    requires
        all_digits(s),
    ensures
        digits_value(s) >= 0,
    decreases s.len(),
{
    if s.len() > 0 {
        lemma_value_nonneg(s.drop_last());
    }
}

/// The number of attempts a request makes with an account pool of `pool_size`.
pub fn max_attempts(pool_size: usize) -> (r: usize)
    ensures
        r == attempts_for(pool_size),
        2 <= r <= MAX_RETRY_ATTEMPTS,
{
    let bounded = if pool_size < MAX_RETRY_ATTEMPTS - 1 { pool_size + 1 } else { MAX_RETRY_ATTEMPTS };
    if bounded < 2 { 2 } else { bounded }
}

} // verus!
