//! Decisions of the alternate strategy, which hands each file to an external
//! command-line media tool under the same truncate, pad and resample contract.
use vstd::prelude::*;

use crate::config::ProcessorConfig;
use vstd::string::StringSliceAdditionalSpecFns;

verus! {

/// How the external tool is to be run on one file.
#[derive(Debug, Clone, Copy, PartialEq, Eq, Structural)]
pub struct ToolPlan {
    /// Output sample rate.
    pub sample_rate: u32,
    /// Stop reading the input after this many milliseconds.
    pub limit_ms: Option<u32>,
    /// Pad the output with silence up to this many milliseconds.
    pub pad_to_ms: Option<u32>,
}

/// Why the external tool did not produce a file.
#[derive(Debug, Clone, Copy, PartialEq, Eq, Structural)]
pub enum ToolError {
    /// The probing tool could not be started.
    ProbeNotStarted,
    /// The converting tool could not be started.
    NotStarted,
    /// The converting tool exited with a non-zero status.
    NonZeroExit,
}

/// Plans the run for a source whose probed duration is `probed_ms` milliseconds (0 when
/// the probe gave no duration): truncate a source longer than the maximum, pad one
/// shorter than the minimum.
pub fn plan_tool_run(config: &ProcessorConfig, probed_ms: u64) -> (r: ToolPlan)
    ensures
        r.sample_rate == config.target_sample_rate,
        r.limit_ms == (if probed_ms > config.max_duration_ms {
            Some(config.max_duration_ms)
        } else {
            None::<u32>
        }),
        r.pad_to_ms == (if probed_ms < config.min_duration_ms {
            Some(config.min_duration_ms)
        } else {
            None::<u32>
        }),
{
    let limit_ms = if probed_ms > config.max_duration_ms as u64 {
        Some(config.max_duration_ms)
    } else {
        None
    };
    let pad_to_ms = if probed_ms < config.min_duration_ms as u64 {
        Some(config.min_duration_ms)
    } else {
        None
    };
    ToolPlan { sample_rate: config.target_sample_rate, limit_ms, pad_to_ms }
}

/// Outcome of the converting tool: `None` when it could not be started, else whether it
/// exited successfully.
pub fn tool_outcome(exit_success: Option<bool>) -> (r: Result<(), ToolError>)
    ensures
        exit_success == Some(true) ==> r == Ok::<(), ToolError>(()),
        exit_success == Some(false) ==> r == Err::<(), ToolError>(ToolError::NonZeroExit),
        exit_success is None ==> r == Err::<(), ToolError>(ToolError::NotStarted),
{
    match exit_success {
        Some(true) => Ok(()),
        Some(false) => Err(ToolError::NonZeroExit),
        None => Err(ToolError::NotStarted),
    }
}

/// Longest integer part, in digits, that a probed duration may have.
pub const MAX_SECONDS_DIGITS: usize = 15;

pub open spec fn is_space(c: u8) -> bool {
    c == 32 || c == 9 || c == 10 || c == 13
}

pub open spec fn is_digit(c: u8) -> bool {
    48 <= c <= 57
}

/// `s` without its leading ASCII whitespace.
pub open spec fn trim_start(s: Seq<u8>) -> Seq<u8>
    decreases s.len(),
{
    if s.len() > 0 && is_space(s[0]) {
        trim_start(s.drop_first())
    } else {
        s
    }
}

/// `s` without its trailing ASCII whitespace.
pub open spec fn trim_end(s: Seq<u8>) -> Seq<u8>
    decreases s.len(),
{
    if s.len() > 0 && is_space(s.last()) {
        trim_end(s.drop_last())
    } else {
        s
    }
}

/// Number of decimal digits at the start of `s`.
pub open spec fn digit_run(s: Seq<u8>) -> nat
    decreases s.len(),
{
    if s.len() > 0 && is_digit(s[0]) {
        1 + digit_run(s.drop_first())
    } else {
        0
    }
}

/// Value of a string of decimal digits.
pub open spec fn decimal(s: Seq<u8>) -> nat
    decreases s.len(),
{
    if s.len() == 0 {
        0
    } else {
        decimal(s.drop_last()) * 10 + (s.last() - 48) as nat
    }
}

pub open spec fn pow10(n: nat) -> nat
    decreases n,
{
    if n == 0 {
        1
    } else {
        10 * pow10((n - 1) as nat)
    }
}

/// Milliseconds of a fraction of a second given by its digits after the point,
/// rounded to nearest with halves up.
pub open spec fn fraction_ms(f: Seq<u8>) -> nat {
    let k = min_len(f.len(), 4);
    (decimal(f.take(k as int)) * pow10((4 - k) as nat) + 5) / 10
}

pub open spec fn min_len(a: nat, b: nat) -> nat {
    if a <= b {
        a
    } else {
        b
    }
}

/// Milliseconds written by `t`, a decimal number of seconds `digits[.digits]` with at most
/// `MAX_SECONDS_DIGITS` digits before the point; `None` for any other text.
pub open spec fn seconds_text_ms(t: Seq<u8>) -> Option<nat> {
    let p = digit_run(t);
    if p == 0 || p > MAX_SECONDS_DIGITS {
        None
    } else if p == t.len() {
        Some(decimal(t) * 1000)
    } else if t[p as int] == 46 && digit_run(t.skip((p + 1) as int)) == t.len() - p - 1 {
        Some(decimal(t.take(p as int)) * 1000 + fraction_ms(t.skip((p + 1) as int)))
    } else {
        None
    }
}

/// Duration a probe printed, in milliseconds: the text trimmed of surrounding whitespace,
/// read as decimal seconds; 0 when it is not such a number.
pub open spec fn probed_duration_ms(b: Seq<u8>) -> nat {
    match seconds_text_ms(trim_end(trim_start(b))) {
        Some(v) => v,
        None => 0,
    }
}

proof fn lemma_pow10_values()
    ensures
        pow10(0) == 1,
        pow10(3) == 1000,
        pow10(4) == 10000,
        pow10(14) == 100_000_000_000_000,
        pow10(15) == 1_000_000_000_000_000,
{
    reveal_with_fuel(pow10, 16);
}

proof fn lemma_pow10_le(a: nat, b: nat)
    requires
        a <= b,
    ensures
        pow10(a) <= pow10(b),
    decreases b,
{
    if a < b {
        lemma_pow10_le(a, (b - 1) as nat);
    }
}

proof fn lemma_decimal_push(b: Seq<u8>, a: int, i: int)
    requires
        0 <= a <= i < b.len(),
    ensures
        decimal(b.subrange(a, i + 1)) == decimal(b.subrange(a, i)) * 10 + (b[i] - 48) as nat,
{
    assert(b.subrange(a, i + 1).drop_last() =~= b.subrange(a, i));
}

proof fn lemma_decimal_bound(s: Seq<u8>)
    requires
        forall|j: int| 0 <= j < s.len() ==> is_digit(#[trigger] s[j]),
    ensures
        decimal(s) < pow10(s.len()),
    decreases s.len(),
{
    if s.len() > 0 {
        let d = s.drop_last();
        assert forall|j: int| 0 <= j < d.len() implies is_digit(#[trigger] d[j]) by {
            assert(d[j] == s[j]);
        }
        lemma_decimal_bound(d);
        assert(is_digit(s[s.len() - 1]));
    }
}

/// Bounds of `b` without its surrounding ASCII whitespace.
fn trimmed_range(b: &[u8]) -> (r: (usize, usize))
    ensures
        r.0 <= r.1 <= b@.len(),
        trim_end(trim_start(b@)) == b@.subrange(r.0 as int, r.1 as int),
{
    let len = b.len();
    let ghost bs = b@;
    let mut start: usize = 0;
    assert(bs.subrange(0, len as int) =~= bs);
    while start < len && (b[start] == 32 || b[start] == 9 || b[start] == 10 || b[start] == 13)
        invariant
            bs == b@,
            len == bs.len(),
            start <= len,
            trim_start(bs) == trim_start(bs.subrange(start as int, len as int)),
        decreases len - start,
    {
        assert(bs.subrange(start as int, len as int).drop_first() =~= bs.subrange(
            start + 1,
            len as int,
        ));
        start = start + 1;
    }
    let mut end: usize = len;
    while end > start && (b[end - 1] == 32 || b[end - 1] == 9 || b[end - 1] == 10 || b[end - 1]
        == 13)
        invariant
            bs == b@,
            len == bs.len(),
            start <= end <= len,
            trim_end(trim_start(bs)) == trim_end(bs.subrange(start as int, end as int)),
        decreases end - start,
    {
        assert(bs.subrange(start as int, end as int).drop_last() =~= bs.subrange(
            start as int,
            end - 1,
        ));
        end = end - 1;
    }
    (start, end)
}

/// Reads the digits of `b[start..end]` up to the first non-digit: `None` when there are
/// more than `MAX_SECONDS_DIGITS`, else where they stop and their value.
fn scan_whole(b: &[u8], start: usize, end: usize) -> (r: Option<(usize, u64)>)
    requires
        start <= end <= b@.len(),
    ensures
        r is None ==> digit_run(b@.subrange(start as int, end as int)) > MAX_SECONDS_DIGITS,
        r matches Some((i, w)) ==> {
            &&& start <= i <= end
            &&& digit_run(b@.subrange(start as int, end as int)) == i - start
            &&& i - start <= MAX_SECONDS_DIGITS
            &&& w == decimal(b@.subrange(start as int, i as int))
            &&& w < pow10((i - start) as nat)
        },
{
    let ghost bs = b@;
    let ghost t = bs.subrange(start as int, end as int);
    let mut i: usize = start;
    let mut whole: u64 = 0;
    proof {
        lemma_pow10_values();
    }
    while i < end && 48 <= b[i] && b[i] <= 57
        invariant
            bs == b@,
            start <= i <= end <= bs.len(),
            i - start <= MAX_SECONDS_DIGITS,
            t == bs.subrange(start as int, end as int),
            digit_run(t) == (i - start) + digit_run(bs.subrange(i as int, end as int)),
            whole == decimal(bs.subrange(start as int, i as int)),
            whole < pow10((i - start) as nat),
        decreases end - i,
    {
        assert(bs.subrange(i as int, end as int).drop_first() =~= bs.subrange(
            i + 1,
            end as int,
        ));
        assert(bs.subrange(i as int, end as int)[0] == bs[i as int]);
        assert(digit_run(bs.subrange(i as int, end as int)) >= 1);
        if i - start == MAX_SECONDS_DIGITS {
            return None;
        }
        proof {
            lemma_pow10_le((i - start) as nat, 14);
            lemma_pow10_values();
            lemma_decimal_push(bs, start as int, i as int);
        }
        assert(pow10((i + 1 - start) as nat) == 10 * pow10((i - start) as nat));
        whole = whole * 10 + (b[i] - 48) as u64;
        i = i + 1;
    }
    assert(i == end || bs.subrange(i as int, end as int)[0] == bs[i as int]);
    Some((i, whole))
}

/// The fraction digits `b[from..end]` as rounded milliseconds; `None` when they are not
/// all digits.
fn scan_fraction(b: &[u8], from: usize, end: usize) -> (r: Option<u64>)
    requires
        from <= end <= b@.len(),
    ensures
        r is None <==> digit_run(b@.subrange(from as int, end as int)) != end - from,
        r matches Some(v) ==> v == fraction_ms(b@.subrange(from as int, end as int)) && v <= 1000,
{
    let ghost bs = b@;
    let ghost f = bs.subrange(from as int, end as int);
    let mut j: usize = from;
    let mut frac: u64 = 0;
    let mut k: usize = 0;
    proof {
        lemma_pow10_values();
    }
    while j < end && 48 <= b[j] && b[j] <= 57
        invariant
            bs == b@,
            from <= j <= end <= bs.len(),
            f == bs.subrange(from as int, end as int),
            digit_run(f) == (j - from) + digit_run(bs.subrange(j as int, end as int)),
            k == min_len((j - from) as nat, 4),
            frac == decimal(f.take(k as int)),
            frac < pow10(k as nat),
        decreases end - j,
    {
        assert(bs.subrange(j as int, end as int).drop_first() =~= bs.subrange(j + 1, end as int));
        if k < 4 {
            proof {
                lemma_pow10_le(k as nat, 3);
                lemma_pow10_values();
            }
            assert(f.take(k + 1).drop_last() =~= f.take(k as int));
            assert(f.take(k + 1).last() == bs[j as int]);
            assert(pow10((k + 1) as nat) == 10 * pow10(k as nat));
            frac = frac * 10 + (b[j] - 48) as u64;
            k = k + 1;
        }
        j = j + 1;
    }
    if j != end {
        assert(bs.subrange(j as int, end as int)[0] == bs[j as int]);
        return None;
    }
    let mut scaled: u64 = frac;
    let mut pad: usize = k;
    proof {
        lemma_pow10_values();
        assert(pow10((pad - k) as nat) == 1);
        assert(frac * 1 == frac) by (nonlinear_arith);
    }
    while pad < 4
        invariant
            k <= pad <= 4,
            scaled == frac * pow10((pad - k) as nat),
            frac < pow10(k as nat),
            scaled < pow10(pad as nat),
        decreases 4 - pad,
    {
        assert(pow10((pad + 1 - k) as nat) == 10 * pow10((pad - k) as nat));
        assert(pow10((pad + 1) as nat) == 10 * pow10(pad as nat));
        proof {
            lemma_pow10_values();
            let a = pow10((pad - k) as nat);
            assert(frac * (10 * a) == (frac * a) * 10) by (nonlinear_arith);
        }
        scaled = scaled * 10;
        pad = pad + 1;
    }
    proof {
        lemma_pow10_values();
    }
    Some((scaled + 5) / 10)
}

/// Reads decimal seconds `digits[.digits]`, trimmed of surrounding whitespace, as
/// milliseconds rounded to nearest; `None` when the text is not such a number.
pub fn parse_seconds_ms(text: &str) -> (r: Option<u64>)
    ensures
        r is Some <==> seconds_text_ms(trim_end(trim_start(text.spec_bytes()))) is Some,
        r matches Some(v) ==> v == seconds_text_ms(trim_end(trim_start(text.spec_bytes())))->0,
{
    let b = text.as_bytes();
    let (start, end) = trimmed_range(b);
    let ghost t = b@.subrange(start as int, end as int);
    let (i, whole) = match scan_whole(b, start, end) {
        None => return None,
        Some(found) => found,
    };
    let p = i - start;
    if p == 0 {
        return None;
    }
    proof {
        lemma_pow10_le(p as nat, 15);
        lemma_pow10_values();
    }
    assert(t.take(p as int) =~= b@.subrange(start as int, i as int));
    if i == end {
        assert(t =~= b@.subrange(start as int, i as int));
        return Some(whole * 1000);
    }
    assert(t[p as int] == b@[i as int]);
    if b[i] != 46 {
        return None;
    }
    assert(t.skip((p + 1) as int) =~= b@.subrange(i + 1, end as int));
    match scan_fraction(b, i + 1, end) {
        None => None,
        Some(ms) => Some(whole * 1000 + ms),
    }
}

/// Reads the duration a probe printed, in milliseconds; 0 when it printed no number.
pub fn parse_duration_ms(text: &str) -> (r: u64)
    ensures
        r == probed_duration_ms(text.spec_bytes()),
{
    match parse_seconds_ms(text) {
        Some(ms) => ms,
        None => 0,
    }
}
} // verus!
