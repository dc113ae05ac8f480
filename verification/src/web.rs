use vstd::prelude::*;
use vstd::string::StrSliceExecFns;
use crate::state::opt_view;
use crate::text::concat;

verus! {

/// Seconds that every request to a platform may take.
pub const HTTP_TIMEOUT_SECS: u64 = 15;

/// How often a Modrinth API request is retried after "429 Too Many Requests".
pub const API_MAX_ATTEMPTS: u32 = 5;

/// How often a download is retried after "429 Too Many Requests".
pub const DOWNLOAD_MAX_ATTEMPTS: u32 = 3;

/// What to do after an HTTP response arrived.
#[derive(Debug, PartialEq, Eq, Structural)]
pub enum RetryStep {
    /// Take the response as it is.
    Proceed,
    /// Wait that many seconds, then send the request again.
    Wait(u64),
    /// Stop: the rate limit was hit too often.
    GiveUp,
}

/// What appending a query pair gives for a URL given as text: the serialized
/// URL, or nothing when the text does not parse as a URL.
pub uninterp spec fn url_with_pair(url: Seq<char>, key: Seq<char>, value: Seq<char>) -> Option<Seq<char>>;

/// Parses `url` as a URL (`url::Url::parse`), appends the pair `key=value` to its
/// query (`query_pairs_mut().append_pair`) and serializes it; the result is named
/// `url_with_pair`, of the three arguments alone.
#[verifier::external_body]
pub(crate) fn append_query_pair(url: &str, key: &str, value: &str) -> (r: Option<String>)
    ensures
        opt_view(r) == url_with_pair(url@, key@, value@),
{
    let mut u = reqwest::Url::parse(url).ok()?;
    u.query_pairs_mut().append_pair(key, value);
    Some(u.to_string())
}

/// The value of a decimal digit.
pub open spec fn digit_value(c: char) -> int {
    (c as int) - ('0' as int)
}

pub open spec fn is_digit(c: char) -> bool {
    '0' <= c && c <= '9'
}

/// The number that a sequence of decimal digits writes.
pub open spec fn decimal_value(ds: Seq<char>) -> int
    decreases ds.len(),
{
    if ds.len() == 0 {
        0
    } else {
        decimal_value(ds.drop_last()) * 10 + digit_value(ds.last())
    }
}

/// What `str::parse::<u64>` accepts: an optional `+`, then one or more decimal
/// digits whose value fits in a `u64`.
pub open spec fn parse_u64_spec(s: Seq<char>) -> Option<int> {
    let ds = if s.len() > 0 && s[0] == '+' {
        s.drop_first()
    } else {
        s
    };
    parse_u64_spec_digits(ds)
}

proof fn lemma_decimal_value_nonneg(ds: Seq<char>)
    requires
        forall|i: int| 0 <= i < ds.len() ==> is_digit(#[trigger] ds[i]),
    ensures
        decimal_value(ds) >= 0,
    decreases ds.len(),
{
    if ds.len() > 0 {
        lemma_decimal_value_nonneg(ds.drop_last());
        assert(is_digit(ds[ds.len() - 1]));
    }
}

proof fn lemma_decimal_value_grows(ds: Seq<char>, n: int)
    requires
        0 <= n <= ds.len(),
        forall|i: int| 0 <= i < ds.len() ==> is_digit(#[trigger] ds[i]),
    ensures
        decimal_value(ds.subrange(0, n)) <= decimal_value(ds),
    decreases ds.len() - n,
{
    if n < ds.len() {
        lemma_decimal_value_grows(ds, n + 1);
        assert(ds.subrange(0, n + 1).drop_last() =~= ds.subrange(0, n));
        lemma_decimal_value_nonneg(ds.subrange(0, n));
        assert(is_digit(ds[n]));
    } else {
        assert(ds.subrange(0, n) =~= ds);
    }
}

/// Parses a decimal number as `str::parse::<u64>` does.
pub fn parse_u64(s: &str) -> (r: Option<u64>)
    ensures
        r matches Some(v) ==> parse_u64_spec(s@) == Some(v as int),
        r is None ==> parse_u64_spec(s@) is None,
{
    let n = s.unicode_len();
    let start: usize = if n > 0 && s.get_char(0) == '+' { 1 } else { 0 };
    let ghost ds = if s@.len() > 0 && s@[0] == '+' { s@.drop_first() } else { s@ };
    proof {
        assert(ds =~= s@.subrange(start as int, n as int));
        assert(parse_u64_spec(s@) == parse_u64_spec_digits(ds));
    }
    if start >= n {
        return None;
    }
    let mut v: u64 = 0;
    let mut i: usize = start;
    while i < n
        invariant
            n == s@.len(),
            start <= i <= n,
            ds == s@.subrange(start as int, n as int),
            parse_u64_spec(s@) == parse_u64_spec_digits(ds),
            forall|k: int| 0 <= k < i - start ==> is_digit(#[trigger] ds[k]),
            v as int == decimal_value(ds.subrange(0, i - start)),
        decreases n - i,
    {
        let c = s.get_char(i);
        assert(ds[i - start] == c);
        if !('0' <= c && c <= '9') {
            assert(!is_digit(ds[i - start]));
            return None;
        }
        let d = (c as u32 - '0' as u32) as u64;
        assert(ds.subrange(0, i - start + 1).drop_last() =~= ds.subrange(0, i - start));
        match v.checked_mul(10) {
            None => {
                proof {
                    lemma_parse_overflow(ds, (i - start) as int, c);
                }
                return None;
            },
            Some(m) => match m.checked_add(d) {
                None => {
                    proof {
                        lemma_parse_overflow(ds, (i - start) as int, c);
                    }
                    return None;
                },
                Some(w) => {
                    v = w;
                },
            },
        }
        i = i + 1;
    }
    assert(ds.subrange(0, n - start) =~= ds);
    Some(v)
}

/// A prefix of digits whose value overflows a `u64` makes the whole overflow.
proof fn lemma_parse_overflow(ds: Seq<char>, k: int, c: char)
    requires
        0 <= k < ds.len(),
        ds[k] == c,
        is_digit(c),
        forall|j: int| 0 <= j < k ==> is_digit(#[trigger] ds[j]),
        decimal_value(ds.subrange(0, k)) * 10 + digit_value(c) > u64::MAX,
    ensures
        parse_u64_spec_digits(ds) is None,
{
    if forall|j: int| 0 <= j < ds.len() ==> is_digit(#[trigger] ds[j]) {
        assert(ds.subrange(0, k + 1).drop_last() =~= ds.subrange(0, k));
        lemma_decimal_value_grows(ds, k + 1);
    }
}

/// The value of a sequence of digits, when all are digits and it fits in a `u64`.
pub open spec fn parse_u64_spec_digits(ds: Seq<char>) -> Option<int> {
    if ds.len() > 0 && (forall|i: int| 0 <= i < ds.len() ==> is_digit(#[trigger] ds[i])) && decimal_value(ds) <= u64::MAX {
        Some(decimal_value(ds))
    } else {
        None
    }
}

/// The seconds to wait for a delay of `d`: one more, wrapping around as `u64` addition does.
pub open spec fn wait_after(d: int) -> u64 {
    if d == u64::MAX {
        0
    } else {
        (d + 1) as u64
    }
}

/// What to do after a Modrinth API response: proceed unless it is "429 Too
/// Many Requests"; then give up after `API_MAX_ATTEMPTS` retries, else wait the
/// seconds of the `x-ratelimit-reset` header (when it parses as a number) or
/// 2^attempts, plus one.
pub fn api_retry_step(too_many_requests: bool, attempts: u32, reset_header: Option<&str>) -> (r: RetryStep)
    requires
        attempts <= API_MAX_ATTEMPTS,
    ensures
        !too_many_requests ==> r == RetryStep::Proceed,
        too_many_requests && attempts >= API_MAX_ATTEMPTS ==> r == RetryStep::GiveUp,
        too_many_requests && attempts < API_MAX_ATTEMPTS ==> r == RetryStep::Wait(
            wait_after(match reset_header {
                Some(h) => match parse_u64_spec(h@) {
                    Some(v) => v,
                    None => vstd::arithmetic::power2::pow2(attempts as nat) as int,
                },
                None => vstd::arithmetic::power2::pow2(attempts as nat) as int,
            }),
        ),
{
    if !too_many_requests {
        return RetryStep::Proceed;
    }
    if attempts >= API_MAX_ATTEMPTS {
        return RetryStep::GiveUp;
    }
    let backoff = pow2_u64(attempts);
    let delay: u64 = match reset_header {
        Some(h) => match parse_u64(h) {
            Some(v) => v,
            None => backoff,
        },
        None => backoff,
    };
    RetryStep::Wait(if delay == u64::MAX { 0 } else { delay + 1 })
}

/// What to do after a download response: proceed unless it is "429 Too Many
/// Requests"; then give up after `DOWNLOAD_MAX_ATTEMPTS` retries, else wait 2^attempts seconds.
pub fn download_retry_step(too_many_requests: bool, attempts: u32) -> (r: RetryStep)
    requires
        attempts <= DOWNLOAD_MAX_ATTEMPTS,
    ensures
        !too_many_requests ==> r == RetryStep::Proceed,
        too_many_requests && attempts >= DOWNLOAD_MAX_ATTEMPTS ==> r == RetryStep::GiveUp,
        too_many_requests && attempts < DOWNLOAD_MAX_ATTEMPTS ==> r == RetryStep::Wait(vstd::arithmetic::power2::pow2(attempts as nat) as u64),
{
    if !too_many_requests {
        return RetryStep::Proceed;
    }
    if attempts >= DOWNLOAD_MAX_ATTEMPTS {
        return RetryStep::GiveUp;
    }
    RetryStep::Wait(pow2_u64(attempts))
}

/// 2 to the power `e`, for small `e`.
fn pow2_u64(e: u32) -> (r: u64)
    requires
        e < 8,
    ensures
        r as nat == vstd::arithmetic::power2::pow2(e as nat),
{
    proof {
        vstd::arithmetic::power2::lemma2_to64();
    }
    if e == 0 {
        1
    } else if e == 1 {
        2
    } else if e == 2 {
        4
    } else if e == 3 {
        8
    } else if e == 4 {
        16
    } else if e == 5 {
        32
    } else if e == 6 {
        64
    } else {
        128
    }
}

/// The path where a download is written before it is checked: the target path
/// with `.part` after it.
pub fn part_path(output: &str) -> (r: String)
    ensures
        r@ == output@ + ".part"@,
{
    concat(output, ".part")
}

/// The path where a state file is written before it replaces the file: the path
/// with `.tmp` after it.
pub fn tmp_path(path: &str) -> (r: String)
    ensures
        r@ == path@ + ".tmp"@,
{
    concat(path, ".tmp")
}

} // verus!
