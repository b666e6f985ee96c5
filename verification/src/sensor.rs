//! Turning the text of a sensor reading file into a trusted whole-degree
//! Celsius value: trim, parse as an unsigned millidegree count, divide by
//! 1000, and fail safe to a high sentinel on anything suspect.

use vstd::prelude::*;
use vstd::string::StrSliceExecFns;

verus! {

/// Sentinel temperature, in whole degrees Celsius, substituted when a
/// reading cannot be trusted, so that fans default toward maximum cooling.
pub const SENTINEL_TEMP_C: u32 = 101;

/// Lowest reading, in whole degrees Celsius, that is believed to come from
/// a true millidegree source; anything lower suggests the file already held
/// whole degrees and is treated as implausible.
pub const MIN_PLAUSIBLE_TEMP_C: u32 = 10;

/// An implausibly low reading is replaced by the fail-safe sentinel.
pub open spec fn spec_sanitize_reading(t: u32) -> u32 {
    if t < MIN_PLAUSIBLE_TEMP_C {
        SENTINEL_TEMP_C
    } else {
        t
    }
}

/// Replace an implausibly low reading by the fail-safe sentinel.
pub fn sanitize_reading(t: u32) -> (r: u32)
    ensures
        r == spec_sanitize_reading(t),
{
    if t < MIN_PLAUSIBLE_TEMP_C {
        SENTINEL_TEMP_C
    } else {
        t
    }
}

/// ASCII whitespace, as sensor files pad their payload with.
pub open spec fn is_space(c: char) -> bool {
    c == ' ' || c == '\t' || c == '\n' || c == '\u{000C}' || c == '\r'
}

/// `s` without its leading whitespace.
pub open spec fn trim_start_spec(s: Seq<char>) -> Seq<char>
    decreases s.len(),
{
    if s.len() > 0 && is_space(s[0]) {
        trim_start_spec(s.drop_first())
    } else {
        s
    }
}

/// `s` without its trailing whitespace.
pub open spec fn trim_end_spec(s: Seq<char>) -> Seq<char>
    decreases s.len(),
{
    if s.len() > 0 && is_space(s.last()) {
        trim_end_spec(s.drop_last())
    } else {
        s
    }
}

/// `s` without leading and trailing whitespace.
pub open spec fn trim_spec(s: Seq<char>) -> Seq<char> {
    trim_end_spec(trim_start_spec(s))
}

/// Whether `c` is ASCII whitespace.
pub fn is_space_char(c: char) -> (r: bool)
    ensures
        r == is_space(c),
{
    c == ' ' || c == '\t' || c == '\n' || c == '\u{000C}' || c == '\r'
}

/// If everything before `lo` is whitespace and `lo` is past it, trimming
/// the start is exactly skipping to `lo`.
proof fn lemma_trim_start_at(s: Seq<char>, lo: int)
    requires
        0 <= lo <= s.len(),
        forall|j: int| 0 <= j < lo ==> is_space(s[j]),
        lo < s.len() ==> !is_space(s[lo]),
    ensures
        trim_start_spec(s) == s.skip(lo),
    decreases lo,
{
    if lo == 0 {
        assert(s.skip(0) =~= s);
    } else {
        lemma_trim_start_at(s.drop_first(), lo - 1);
        assert(s.drop_first().skip(lo - 1) =~= s.skip(lo));
    }
}

/// If everything from `hi` on is whitespace and `hi` is before it, trimming
/// the end is exactly keeping the first `hi` characters.
proof fn lemma_trim_end_at(s: Seq<char>, hi: int)
    requires
        0 <= hi <= s.len(),
        forall|j: int| hi <= j < s.len() ==> is_space(s[j]),
        hi > 0 ==> !is_space(s[hi - 1]),
    ensures
        trim_end_spec(s) == s.take(hi),
    decreases s.len(),
{
    if hi == s.len() {
        if s.len() == 0 {
            assert(s.take(hi) =~= s);
        } else {
            assert(!is_space(s.last()));
            assert(s.take(hi) =~= s);
        }
    } else {
        assert(is_space(s.last()));
        lemma_trim_end_at(s.drop_last(), hi);
        assert(s.drop_last().take(hi) =~= s.take(hi));
    }
}

/// `s` with leading and trailing ASCII whitespace removed.
pub fn trim_str<'a>(s: &'a str) -> (r: &'a str)
    ensures
        r@ == trim_spec(s@),
{
    let n = s.unicode_len();
    let mut lo: usize = 0;
    while lo < n && is_space_char(s.get_char(lo))
        invariant
            0 <= lo <= n,
            n == s@.len(),
            forall|j: int| 0 <= j < lo ==> is_space(s@[j]),
        decreases n - lo,
    {
        lo = lo + 1;
    }
    let mut hi: usize = n;
    while hi > lo && is_space_char(s.get_char(hi - 1))
        invariant
            lo <= hi <= n,
            n == s@.len(),
            forall|j: int| 0 <= j < lo ==> is_space(s@[j]),
            lo < s@.len() ==> !is_space(s@[lo as int]),
            forall|j: int| hi <= j < n ==> is_space(s@[j]),
        decreases hi,
    {
        hi = hi - 1;
    }
    proof {
        lemma_trim_start_at(s@, lo as int);
        lemma_trim_end_at(s@.skip(lo as int), hi - lo);
        assert(s@.skip(lo as int).take(hi - lo) =~= s@.subrange(lo as int, hi as int));
    }
    s.substring_char(lo, hi)
}

/// A decimal digit.
pub open spec fn is_digit(c: char) -> bool {
    '0' <= c && c <= '9'
}

/// The value of a decimal digit.
pub open spec fn digit_val(c: char) -> int {
    c as int - '0' as int
}

/// Every character of `s` is a decimal digit.
pub open spec fn all_digits(s: Seq<char>) -> bool {
    forall|i: int| 0 <= i < s.len() ==> is_digit(s[i])
}

/// The number the digit string `s` denotes, most significant digit first.
pub open spec fn digits_val(s: Seq<char>) -> int
    decreases s.len(),
{
    if s.len() == 0 {
        0
    } else {
        digits_val(s.drop_last()) * 10 + digit_val(s.last())
    }
}

/// A digit string denotes a non-negative number.
proof fn lemma_digits_val_nonneg(s: Seq<char>)
    requires
        all_digits(s),
    ensures
        digits_val(s) >= 0,
    decreases s.len(),
{
    if s.len() > 0 {
        assert(all_digits(s.drop_last()));
        lemma_digits_val_nonneg(s.drop_last());
    }
}

/// A prefix of a digit string never denotes more than the whole string.
proof fn lemma_digits_val_prefix_le(s: Seq<char>, m: int)
    requires
        all_digits(s),
        0 <= m <= s.len(),
    ensures
        digits_val(s.take(m)) <= digits_val(s),
    decreases s.len() - m,
{
    if m < s.len() {
        lemma_digits_val_prefix_le(s, m + 1);
        let p = s.take(m + 1);
        assert(p.drop_last() =~= s.take(m));
        assert(all_digits(s.take(m)));
        lemma_digits_val_nonneg(s.take(m));
        assert(digits_val(p) == digits_val(s.take(m)) * 10 + digit_val(s[m]));
        assert(digits_val(s.take(m)) * 10 >= digits_val(s.take(m)));
    } else {
        assert(s.take(m) =~= s);
    }
}

/// `s` without one leading plus sign, the one sign an unsigned decimal
/// parse accepts.
pub open spec fn strip_plus(s: Seq<char>) -> Seq<char> {
    if s.len() > 0 && s[0] == '+' {
        s.drop_first()
    } else {
        s
    }
}

/// What parsing `s` as a `u32` yields: the denoted number if `s` is one or
/// more decimal digits after an optional leading plus and the number fits,
/// nothing otherwise.
pub open spec fn spec_parse_u32(s: Seq<char>) -> Option<u32> {
    let d = strip_plus(s);
    if d.len() > 0 && all_digits(d) && digits_val(d) <= u32::MAX {
        Some(digits_val(d) as u32)
    } else {
        None
    }
}

/// Parse `s` as an unsigned 32-bit decimal number.
pub fn parse_u32_str(s: &str) -> (r: Option<u32>)
    ensures
        r == spec_parse_u32(s@),
{
    let n = s.unicode_len();
    let start: usize = if n > 0 && s.get_char(0) == '+' {
        1
    } else {
        0
    };
    let ghost d = strip_plus(s@);
    proof {
        assert(d =~= s@.skip(start as int));
    }
    if start == n {
        return None;
    }
    let mut i: usize = start;
    let mut acc: u32 = 0;
    while i < n
        invariant
            start <= i <= n,
            n == s@.len(),
            d == strip_plus(s@),
            d == s@.skip(start as int),
            all_digits(d.take(i - start)),
            acc == digits_val(d.take(i - start)),
        decreases n - i,
    {
        let c = s.get_char(i);
        if c < '0' || c > '9' {
            proof {
                assert(d[i - start] == s@[i as int]);
                assert(!is_digit(d[i - start]));
                assert(!all_digits(d));
            }
            return None;
        }
        let dv: u32 = (c as u32) - 48;
        let next: u64 = (acc as u64) * 10 + (dv as u64);
        proof {
            let p = d.take(i - start + 1);
            assert(p.drop_last() =~= d.take(i - start));
            assert(p.last() == d[i - start]);
            assert(d[i - start] == s@[i as int]);
            assert(all_digits(p)) by {
                assert forall|j: int| 0 <= j < p.len() implies is_digit(p[j]) by {
                    if j < i - start {
                        assert(p[j] == d.take(i - start)[j]);
                    }
                }
            }
            assert(digits_val(p) == acc * 10 + dv);
        }
        if next > 0xffff_ffffu64 {
            proof {
                // The digits seen so far already denote more than fits, and
                // appending digits never shrinks the value.
                if all_digits(d) {
                    lemma_digits_val_prefix_le(d, i - start + 1);
                }
            }
            return None;
        }
        acc = next as u32;
        i = i + 1;
    }
    proof {
        assert(d.take(i - start) =~= d);
    }
    Some(acc)
}

/// The whole-degree reading the text of a sensor file stands for: its
/// trimmed content parsed as millidegrees and truncate-divided by 1000, or
/// the sentinel if it does not parse.
pub open spec fn spec_temp_from_content(s: Seq<char>) -> u32 {
    match spec_parse_u32(trim_spec(s)) {
        Some(v) => (v / 1000) as u32,
        None => SENTINEL_TEMP_C,
    }
}

/// Parse a sensor file's text into whole degrees Celsius, failing safe to
/// the sentinel when it does not parse.
pub fn temp_from_content(content: &str) -> (t: u32)
    ensures
        t == spec_temp_from_content(content@),
{
    let trimmed = trim_str(content);
    match parse_u32_str(trimmed) {
        Some(v) => v / 1000,
        None => SENTINEL_TEMP_C,
    }
}

/// The reading recorded for a sensor file's text: parsed, scaled to whole
/// degrees, and checked for plausibility, with every failure collapsing to
/// the fail-safe sentinel.
pub open spec fn spec_reading_from_content(s: Seq<char>) -> u32 {
    spec_sanitize_reading(spec_temp_from_content(s))
}

/// Turn a sensor file's text into the reading recorded for its source.
pub fn reading_from_content(content: &str) -> (t: u32)
    ensures
        t == spec_reading_from_content(content@),
{
    sanitize_reading(temp_from_content(content))
}

} // verus!
