//! Timestamps and durations.
//!
//! A timestamp string is a loosely formatted RFC 3339 instant
//! (`2018-02-16T00:31:37Z`, with `t` or a space accepted as the separator,
//! an optional fractional-second part and an optional trailing `Z` or `z`).
//! A duration string is a sequence of decimal numbers each followed by a
//! unit word (`1hr 12min`, `30min 50sec`, `1day`), summed together.
use vstd::prelude::*;
use vstd::string::*;

use crate::errors::ArgField;
use crate::errors::CmdError;

verus! {

/// A moment in time, in milliseconds since the Unix epoch (UTC).
#[derive(Clone, Copy, PartialEq, Eq, Structural, Debug)]
pub struct Timestamp {
    pub millis: u64,
}

/// A span of time, in milliseconds.
#[derive(Clone, Copy, PartialEq, Eq, Structural, Debug)]
pub struct TimeDiff {
    pub millis: u64,
}

// ---------------------------------------------------------------------------
// Decimal digit runs
// ---------------------------------------------------------------------------

pub open spec fn is_digit(b: u8) -> bool {
    48 <= b && b <= 57
}

pub open spec fn digit_val(b: u8) -> int {
    b - 48
}

/// Value of a run of decimal digits, most significant first.
pub open spec fn digits_val(s: Seq<u8>) -> int
    decreases s.len(),
{
    if s.len() == 0 {
        0
    } else {
        digits_val(s.drop_last()) * 10 + digit_val(s.last())
    }
}

pub open spec fn all_digits(s: Seq<u8>) -> bool {
    forall|i: int| 0 <= i < s.len() ==> is_digit(#[trigger] s[i])
}

pub open spec fn pow10(n: nat) -> int
    decreases n,
{
    if n == 0 {
        1
    } else {
        10 * pow10((n - 1) as nat)
    }
}

pub proof fn lemma_digits_val_bounds(s: Seq<u8>)
    requires
        all_digits(s),
    ensures
        0 <= digits_val(s) < pow10(s.len()),
    decreases s.len(),
{
    if s.len() > 0 {
        assert(all_digits(s.drop_last())) by {
            assert(forall|i: int|
                0 <= i < s.len() - 1 ==> #[trigger] s.drop_last()[i] == s[i]);
        }
        lemma_digits_val_bounds(s.drop_last());
        assert(is_digit(s[s.len() - 1]));
    }
}

/// Index of the first non-digit byte at or after `i`.
pub open spec fn digits_end(s: Seq<u8>, i: int) -> int
    decreases s.len() - i,
{
    if i < s.len() && is_digit(s[i]) {
        digits_end(s, i + 1)
    } else {
        i
    }
}

pub proof fn lemma_digits_end_ge(s: Seq<u8>, i: int)
    ensures
        digits_end(s, i) >= i,
    decreases s.len() - i,
{
    if i < s.len() && is_digit(s[i]) {
        lemma_digits_end_ge(s, i + 1);
    }
}

pub proof fn lemma_digits_end(s: Seq<u8>, i: int)
    requires
        0 <= i <= s.len(),
    ensures
        i <= digits_end(s, i) <= s.len(),
        all_digits(s.subrange(i, digits_end(s, i))),
        digits_end(s, i) < s.len() ==> !is_digit(s[digits_end(s, i)]),
    decreases s.len() - i,
{
    if i < s.len() && is_digit(s[i]) {
        lemma_digits_end(s, i + 1);
        let e = digits_end(s, i);
        assert(e == digits_end(s, i + 1));
        assert forall|k: int| 0 <= k < e - i implies is_digit(#[trigger] s.subrange(i, e)[k]) by {
            if k == 0 {
                assert(s.subrange(i, e)[0] == s[i]);
            } else {
                assert(s.subrange(i, e)[k] == s.subrange(i + 1, e)[k - 1]);
            }
        }
    } else {
        assert(s.subrange(i, i) =~= Seq::<u8>::empty());
    }
}

/// Index of the first non-letter byte at or after `i`.
pub open spec fn alpha_end(s: Seq<u8>, i: int) -> int
    decreases s.len() - i,
{
    if i < s.len() && is_alpha(s[i]) {
        alpha_end(s, i + 1)
    } else {
        i
    }
}

pub open spec fn is_alpha(b: u8) -> bool {
    (97 <= b && b <= 122) || (65 <= b && b <= 90)
}

pub proof fn lemma_alpha_end_ge(s: Seq<u8>, i: int)
    ensures
        alpha_end(s, i) >= i,
    decreases s.len() - i,
{
    if i < s.len() && is_alpha(s[i]) {
        lemma_alpha_end_ge(s, i + 1);
    }
}

pub proof fn lemma_alpha_end_le(s: Seq<u8>, i: int)
    requires
        0 <= i <= s.len(),
    ensures
        i <= alpha_end(s, i) <= s.len(),
    decreases s.len() - i,
{
    if i < s.len() && is_alpha(s[i]) {
        lemma_alpha_end_le(s, i + 1);
    }
}

/// Index of the first non-space byte at or after `i`.
pub open spec fn space_end(s: Seq<u8>, i: int) -> int
    decreases s.len() - i,
{
    if i < s.len() && s[i] == 32 {
        space_end(s, i + 1)
    } else {
        i
    }
}

pub proof fn lemma_space_end_ge(s: Seq<u8>, i: int)
    ensures
        space_end(s, i) >= i,
    decreases s.len() - i,
{
    if i < s.len() && s[i] == 32 {
        lemma_space_end_ge(s, i + 1);
    }
}

pub proof fn lemma_space_end_le(s: Seq<u8>, i: int)
    requires
        0 <= i <= s.len(),
    ensures
        i <= space_end(s, i) <= s.len(),
    decreases s.len() - i,
{
    if i < s.len() && s[i] == 32 {
        lemma_space_end_le(s, i + 1);
    }
}

// ---------------------------------------------------------------------------
// Calendar arithmetic
// ---------------------------------------------------------------------------

pub open spec fn is_leap_year(y: int) -> bool {
    (y % 4 == 0 && y % 100 != 0) || y % 400 == 0
}

pub open spec fn days_in_month(y: int, m: int) -> int {
    if m == 2 {
        if is_leap_year(y) {
            29
        } else {
            28
        }
    } else if m == 4 || m == 6 || m == 9 || m == 11 {
        30
    } else {
        31
    }
}

/// Days of year `y` that pass before the first day of month `m`.
pub open spec fn days_before_month(y: int, m: int) -> int {
    let feb: int = if is_leap_year(y) {
        29
    } else {
        28
    };
    if m == 1 {
        0
    } else if m == 2 {
        31
    } else if m == 3 {
        31 + feb
    } else if m == 4 {
        62 + feb
    } else if m == 5 {
        92 + feb
    } else if m == 6 {
        123 + feb
    } else if m == 7 {
        153 + feb
    } else if m == 8 {
        184 + feb
    } else if m == 9 {
        215 + feb
    } else if m == 10 {
        245 + feb
    } else if m == 11 {
        276 + feb
    } else {
        306 + feb
    }
}

/// Number of leap years `z` with `1 <= z < y`.
pub open spec fn leap_years_upto(y: int) -> int {
    (y - 1) / 4 - (y - 1) / 100 + (y - 1) / 400
}

/// Days from 1970-01-01 to the calendar date `y`-`m`-`d`.
///
/// 477 is the number of leap years before 1970.
pub open spec fn days_from_epoch(y: int, m: int, d: int) -> int {
    365 * (y - 1970) + leap_years_upto(y) - 477 + days_before_month(y, m) + (d - 1)
}

// ---------------------------------------------------------------------------
// Timestamp grammar
// ---------------------------------------------------------------------------

pub open spec fn ts_sep_ok(b: u8) -> bool {
    b == 84 || b == 116 || b == 32  // 'T', 't', ' '
}

pub open spec fn is_zulu(b: u8) -> bool {
    b == 90 || b == 122  // 'Z', 'z'
}

/// What may follow the seconds field: nothing, a zone designator, or a
/// fractional-second part of one to nine digits, itself optionally followed
/// by a zone designator.
pub open spec fn ts_tail_ok(s: Seq<u8>) -> bool {
    if s.len() == 19 {
        true
    } else if s.len() == 20 {
        is_zulu(s[19])
    } else {
        let fe = digits_end(s, 20);
        &&& s[19] == 46  // '.'
        &&& fe > 20
        &&& fe - 20 <= 9
        &&& (fe == s.len() || (fe + 1 == s.len() && is_zulu(s[fe])))
    }
}

pub open spec fn ts_shape_ok(s: Seq<u8>) -> bool {
    &&& s.len() >= 19
    &&& all_digits(s.subrange(0, 4))
    &&& s[4] == 45  // '-'
    &&& all_digits(s.subrange(5, 7))
    &&& s[7] == 45
    &&& all_digits(s.subrange(8, 10))
    &&& ts_sep_ok(s[10])
    &&& all_digits(s.subrange(11, 13))
    &&& s[13] == 58  // ':'
    &&& all_digits(s.subrange(14, 16))
    &&& s[16] == 58
    &&& all_digits(s.subrange(17, 19))
    &&& ts_tail_ok(s)
}

pub open spec fn ts_year(s: Seq<u8>) -> int {
    digits_val(s.subrange(0, 4))
}

pub open spec fn ts_month(s: Seq<u8>) -> int {
    digits_val(s.subrange(5, 7))
}

pub open spec fn ts_day(s: Seq<u8>) -> int {
    digits_val(s.subrange(8, 10))
}

pub open spec fn ts_hour(s: Seq<u8>) -> int {
    digits_val(s.subrange(11, 13))
}

pub open spec fn ts_minute(s: Seq<u8>) -> int {
    digits_val(s.subrange(14, 16))
}

pub open spec fn ts_second(s: Seq<u8>) -> int {
    digits_val(s.subrange(17, 19))
}

/// Milliseconds contributed by a fractional-second run of digits, truncated
/// beyond the third digit.
pub open spec fn frac_millis(fr: Seq<u8>) -> int {
    if fr.len() >= 3 {
        digits_val(fr.subrange(0, 3))
    } else {
        digits_val(fr) * pow10((3 - fr.len()) as nat)
    }
}

pub open spec fn ts_frac(s: Seq<u8>) -> int {
    if s.len() <= 20 {
        0
    } else {
        frac_millis(s.subrange(20, digits_end(s, 20)))
    }
}

pub open spec fn ts_ranges_ok(s: Seq<u8>) -> bool {
    &&& 1970 <= ts_year(s)
    &&& 1 <= ts_month(s) <= 12
    &&& 1 <= ts_day(s) <= days_in_month(ts_year(s), ts_month(s))
    &&& ts_hour(s) <= 23
    &&& ts_minute(s) <= 59
    &&& ts_second(s) <= 59
}

/// Whether `s` is an accepted timestamp string.
pub open spec fn ts_valid(s: Seq<u8>) -> bool {
    ts_shape_ok(s) && ts_ranges_ok(s)
}

/// The instant denoted by a valid timestamp string, in epoch milliseconds.
pub open spec fn ts_millis(s: Seq<u8>) -> int {
    days_from_epoch(ts_year(s), ts_month(s), ts_day(s)) * 86400000 + ts_hour(s) * 3600000
        + ts_minute(s) * 60000 + ts_second(s) * 1000 + ts_frac(s)
}

/// Instants of accepted timestamp strings stay below this bound (the years
/// run out at 9999), so validity-window arithmetic cannot wrap.
pub open spec fn ts_millis_limit() -> int {
    260000000000000
}

/// The bound of `ts_millis_limit`, for callers that must check a clock
/// reading against it.
pub fn max_timestamp_millis() -> (r: u64)
    ensures
        r == ts_millis_limit(),
{
    260000000000000
}

// ---------------------------------------------------------------------------
// Exec helpers
// ---------------------------------------------------------------------------

/// Reads the fixed-width decimal field `b[start..end]`.
fn read_num(b: &[u8], start: usize, end: usize) -> (r: Option<u64>)
    requires
        start <= end <= b@.len(),
        end - start <= 8,
    ensures
        r is Some <==> all_digits(b@.subrange(start as int, end as int)),
        r is Some ==> r->Some_0 == digits_val(b@.subrange(start as int, end as int)),
        r is Some ==> r->Some_0 < pow10((end - start) as nat),
{
    proof {
        lemma_pow10_values();
    }
    let mut i: usize = start;
    let mut acc: u64 = 0;
    while i < end
        invariant
            start <= i <= end <= b@.len(),
            end - start <= 8,
            all_digits(b@.subrange(start as int, i as int)),
            acc == digits_val(b@.subrange(start as int, i as int)),
            acc < pow10((i - start) as nat),
            pow10(7) == 10000000,
            pow10(8) == 100000000,
        decreases end - i,
    {
        let c = b[i];
        if c < 48 || c > 57 {
            proof {
                assert(b@.subrange(start as int, end as int)[i - start] == b@[i as int]);
            }
            return None;
        }
        proof {
            let sub0 = b@.subrange(start as int, i as int);
            let sub1 = b@.subrange(start as int, (i + 1) as int);
            assert(sub1.drop_last() =~= sub0);
            assert(sub1.last() == b@[i as int]);
            assert forall|k: int| 0 <= k < sub1.len() implies is_digit(#[trigger] sub1[k]) by {
                if k < i - start {
                    assert(sub1[k] == sub0[k]);
                } else {
                    assert(sub1[k] == b@[i as int]);
                }
            }
            assert(pow10((i + 1 - start) as nat) == 10 * pow10((i - start) as nat));
            assert(pow10((i - start) as nat) <= pow10(7)) by {
                lemma_pow10_le((i - start) as nat, 7);
            }
        }
        acc = acc * 10 + (c - 48) as u64;
        i = i + 1;
    }
    Some(acc)
}

pub proof fn lemma_pow10_values()
    ensures
        pow10(0) == 1,
        pow10(1) == 10,
        pow10(2) == 100,
        pow10(3) == 1000,
        pow10(4) == 10000,
        pow10(5) == 100000,
        pow10(6) == 1000000,
        pow10(7) == 10000000,
        pow10(8) == 100000000,
{
    reveal_with_fuel(pow10, 10);
}

pub proof fn lemma_pow10_le(a: nat, b: nat)
    requires
        a <= b,
    ensures
        pow10(a) <= pow10(b),
    decreases b,
{
    if a < b {
        lemma_pow10_le(a, (b - 1) as nat);
        assert(pow10(b) == 10 * pow10((b - 1) as nat));
        assert(pow10((b - 1) as nat) >= 1) by {
            lemma_pow10_pos((b - 1) as nat);
        }
    }
}

pub proof fn lemma_pow10_pos(n: nat)
    ensures
        pow10(n) >= 1,
    decreases n,
{
    if n > 0 {
        lemma_pow10_pos((n - 1) as nat);
    }
}

/// First index at or after `start` whose byte is not a decimal digit.
fn scan_digits_end(b: &[u8], start: usize) -> (r: usize)
    requires
        start <= b@.len(),
    ensures
        r == digits_end(b@, start as int),
        start <= r <= b@.len(),
{
    let mut i: usize = start;
    while i < b.len() && 48 <= b[i] && b[i] <= 57
        invariant
            start <= i <= b@.len(),
            digits_end(b@, start as int) == digits_end(b@, i as int),
        decreases b@.len() - i,
    {
        i = i + 1;
    }
    i
}

fn is_leap_exec(y: u64) -> (r: bool)
    ensures
        r == is_leap_year(y as int),
{
    (y % 4 == 0 && y % 100 != 0) || y % 400 == 0
}

fn days_in_month_exec(y: u64, m: u64) -> (r: u64)
    ensures
        r == days_in_month(y as int, m as int),
        r <= 31,
{
    if m == 2 {
        if is_leap_exec(y) {
            29
        } else {
            28
        }
    } else if m == 4 || m == 6 || m == 9 || m == 11 {
        30
    } else {
        31
    }
}

fn days_before_month_exec(y: u64, m: u64) -> (r: u64)
    requires
        1 <= m <= 12,
    ensures
        r == days_before_month(y as int, m as int),
        r <= 335,
{
    let feb: u64 = if is_leap_exec(y) {
        29
    } else {
        28
    };
    if m == 1 {
        0
    } else if m == 2 {
        31
    } else if m == 3 {
        31 + feb
    } else if m == 4 {
        62 + feb
    } else if m == 5 {
        92 + feb
    } else if m == 6 {
        123 + feb
    } else if m == 7 {
        153 + feb
    } else if m == 8 {
        184 + feb
    } else if m == 9 {
        215 + feb
    } else if m == 10 {
        245 + feb
    } else if m == 11 {
        276 + feb
    } else {
        306 + feb
    }
}

/// Parses a timestamp string; the resolved instant is exactly `ts_millis`.
pub fn parse_timestamp(s: &str) -> (r: Result<Timestamp, CmdError>)
    ensures
        r is Ok <==> ts_valid(s.spec_bytes()),
        r is Ok ==> r->Ok_0.millis == ts_millis(s.spec_bytes()),
        r is Ok ==> r->Ok_0.millis < ts_millis_limit(),
        r is Err ==> r->Err_0 == CmdError::InvalidArgument(ArgField::Timestamp),
{
    let b = s.as_bytes();
    let ghost bs = s.spec_bytes();
    let n = b.len();
    let invalid = CmdError::InvalidArgument(ArgField::Timestamp);
    if n < 19 {
        return Err(invalid);
    }
    if b[4] != 45 || b[7] != 45 || b[13] != 58 || b[16] != 58 {
        return Err(invalid);
    }
    let sep = b[10];
    if !(sep == 84 || sep == 116 || sep == 32) {
        return Err(invalid);
    }
    let y = match read_num(b, 0, 4) {
        Some(v) => v,
        None => {
            return Err(invalid);
        },
    };
    let m = match read_num(b, 5, 7) {
        Some(v) => v,
        None => {
            return Err(invalid);
        },
    };
    let d = match read_num(b, 8, 10) {
        Some(v) => v,
        None => {
            return Err(invalid);
        },
    };
    let h = match read_num(b, 11, 13) {
        Some(v) => v,
        None => {
            return Err(invalid);
        },
    };
    let mi = match read_num(b, 14, 16) {
        Some(v) => v,
        None => {
            return Err(invalid);
        },
    };
    let sec = match read_num(b, 17, 19) {
        Some(v) => v,
        None => {
            return Err(invalid);
        },
    };
    // The tail after the seconds field.
    let mut frac: u64 = 0;
    if n == 19 {
    } else if n == 20 {
        let z = b[19];
        if !(z == 90 || z == 122) {
            return Err(invalid);
        }
    } else {
        if b[19] != 46 {
            return Err(invalid);
        }
        let fe = scan_digits_end(b, 20);
        if fe == 20 || fe - 20 > 9 {
            return Err(invalid);
        }
        if fe < n {
            let z = b[fe];
            if !(fe + 1 == n && (z == 90 || z == 122)) {
                return Err(invalid);
            }
        }
        proof {
            lemma_digits_end(bs, 20);
            lemma_pow10_values();
        }
        let k = fe - 20;
        if k >= 3 {
            frac = match read_num(b, 20, 23) {
                Some(v) => v,
                None => {
                    proof {
                        let fr = bs.subrange(20, fe as int);
                        assert forall|j: int| 0 <= j < 3 implies is_digit(
                            #[trigger] bs.subrange(20, 23)[j],
                        ) by {
                            assert(bs.subrange(20, 23)[j] == fr[j]);
                        }
                    }
                    assert(false);
                    return Err(invalid);
                },
            };
            proof {
                assert(bs.subrange(20, 23) =~= bs.subrange(20, fe as int).subrange(0, 3));
            }
        } else {
            let v = match read_num(b, 20, fe) {
                Some(v) => v,
                None => {
                    assert(false);
                    return Err(invalid);
                },
            };
            frac = if k == 1 {
                v * 100
            } else {
                v * 10
            };
        }
    }
    // Field ranges.
    if y < 1970 {
        return Err(invalid);
    }
    if m < 1 || m > 12 {
        return Err(invalid);
    }
    let dim = days_in_month_exec(y, m);
    if d < 1 || d > dim {
        return Err(invalid);
    }
    if h > 23 || mi > 59 || sec > 59 {
        return Err(invalid);
    }
    assert(ts_valid(bs));
    // Epoch arithmetic; y is at most 9999 because the year field has four
    // digits.
    assert(y <= 9999) by {
        lemma_pow10_values();
    }
    let x = y - 1;
    proof {
        vstd::arithmetic::div_mod::lemma_div_is_ordered_by_denominator(x as int, 4, 100);
        vstd::arithmetic::div_mod::lemma_div_is_ordered(x as int, 9998, 4);
        vstd::arithmetic::div_mod::lemma_div_is_ordered(x as int, 9998, 400);
    }
    let leaps = x / 4 - x / 100 + x / 400;
    let dbm = days_before_month_exec(y, m);
    let days_plus = 365 * (y - 1970) + leaps + dbm + (d - 1);
    proof {
        if y == 1970 {
            assert(leaps == 477);
        } else {
            let q = (x as int) / 4;
            vstd::arithmetic::div_mod::lemma_div_is_ordered(1970, x as int, 4);
            assert(q >= 492);
            vstd::arithmetic::div_mod::lemma_div_denominator(x as int, 4, 25);
            assert((x as int) / 100 == q / 25);
            vstd::arithmetic::div_mod::lemma_div_is_ordered_by_denominator(q, 2, 25);
            assert(q / 25 <= q / 2);
            vstd::arithmetic::div_mod::lemma_fundamental_div_mod(q, 2);
            vstd::arithmetic::div_mod::lemma_div_is_ordered(492, q, 2);
            assert(q - q / 2 >= 246);
            assert(leaps >= 246);
        }
        assert(days_plus >= 477);
    }
    let days = days_plus - 477;
    let millis = days * 86400000 + h * 3600000 + mi * 60000 + sec * 1000 + frac;
    assert(millis == ts_millis(bs));
    assert(millis < 260000000000000);
    Ok(Timestamp { millis })
}

// ---------------------------------------------------------------------------
// Duration grammar
// ---------------------------------------------------------------------------

/// Milliseconds denoted by a unit word, if it is a recognized spelling.
pub open spec fn unit_millis(u: Seq<u8>) -> Option<int> {
    if u.len() == 1 {
        if u[0] == 115 {  // s
            Some(1000)
        } else if u[0] == 109 {  // m
            Some(60000)
        } else if u[0] == 104 {  // h
            Some(3600000)
        } else if u[0] == 100 {  // d
            Some(86400000)
        } else if u[0] == 119 {  // w
            Some(604800000)
        } else if u[0] == 77 {  // M
            Some(2630016000)
        } else if u[0] == 121 {  // y
            Some(31557600000)
        } else {
            None
        }
    } else if u.len() == 2 {
        if u[0] == 109 && u[1] == 115 {  // ms
            Some(1)
        } else if u[0] == 104 && u[1] == 114 {  // hr
            Some(3600000)
        } else {
            None
        }
    } else if u.len() == 3 {
        if u[0] == 115 && u[1] == 101 && u[2] == 99 {  // sec
            Some(1000)
        } else if u[0] == 109 && u[1] == 105 && u[2] == 110 {  // min
            Some(60000)
        } else if u[0] == 104 && u[1] == 114 && u[2] == 115 {  // hrs
            Some(3600000)
        } else if u[0] == 100 && u[1] == 97 && u[2] == 121 {  // day
            Some(86400000)
        } else {
            None
        }
    } else if u.len() == 4 {
        if u[0] == 109 && u[1] == 115 && u[2] == 101 && u[3] == 99 {  // msec
            Some(1)
        } else if u[0] == 115 && u[1] == 101 && u[2] == 99 && u[3] == 115 {  // secs
            Some(1000)
        } else if u[0] == 109 && u[1] == 105 && u[2] == 110 && u[3] == 115 {  // mins
            Some(60000)
        } else if u[0] == 104 && u[1] == 111 && u[2] == 117 && u[3] == 114 {  // hour
            Some(3600000)
        } else if u[0] == 100 && u[1] == 97 && u[2] == 121 && u[3] == 115 {  // days
            Some(86400000)
        } else if u[0] == 119 && u[1] == 101 && u[2] == 101 && u[3] == 107 {  // week
            Some(604800000)
        } else if u[0] == 121 && u[1] == 101 && u[2] == 97 && u[3] == 114 {  // year
            Some(31557600000)
        } else {
            None
        }
    } else if u.len() == 5 {
        if u[0] == 104 && u[1] == 111 && u[2] == 117 && u[3] == 114 && u[4] == 115 {  // hours
            Some(3600000)
        } else if u[0] == 119 && u[1] == 101 && u[2] == 101 && u[3] == 107 && u[4] == 115 {  // weeks
            Some(604800000)
        } else if u[0] == 109 && u[1] == 111 && u[2] == 110 && u[3] == 116 && u[4] == 104 {  // month
            Some(2630016000)
        } else if u[0] == 121 && u[1] == 101 && u[2] == 97 && u[3] == 114 && u[4] == 115 {  // years
            Some(31557600000)
        } else {
            None
        }
    } else if u.len() == 6 {
        if u[0] == 115 && u[1] == 101 && u[2] == 99 && u[3] == 111 && u[4] == 110 && u[5]
            == 100 {  // second
            Some(1000)
        } else if u[0] == 109 && u[1] == 105 && u[2] == 110 && u[3] == 117 && u[4] == 116 && u[5]
            == 101 {  // minute
            Some(60000)
        } else if u[0] == 109 && u[1] == 111 && u[2] == 110 && u[3] == 116 && u[4] == 104 && u[5]
            == 115 {  // months
            Some(2630016000)
        } else {
            None
        }
    } else if u.len() == 7 {
        if u[0] == 115 && u[1] == 101 && u[2] == 99 && u[3] == 111 && u[4] == 110 && u[5] == 100
            && u[6] == 115 {  // seconds
            Some(1000)
        } else if u[0] == 109 && u[1] == 105 && u[2] == 110 && u[3] == 117 && u[4] == 116 && u[5]
            == 101 && u[6] == 115 {  // minutes
            Some(60000)
        } else {
            None
        }
    } else {
        None
    }
}

/// Total milliseconds of the duration string starting at `i`: a digit run,
/// a unit word, then optionally (after spaces) further components.
pub open spec fn ttl_parse_from(s: Seq<u8>, i: int) -> Option<int>
    decreases s.len() - i,
    via ttl_parse_from_dec
{
    let j = digits_end(s, i);
    let k = alpha_end(s, j);
    if j == i || k == j {
        None
    } else {
        match unit_millis(s.subrange(j, k)) {
            None => None,
            Some(u) => {
                let v = digits_val(s.subrange(i, j)) * u;
                let m = space_end(s, k);
                if m >= s.len() {
                    Some(v)
                } else {
                    match ttl_parse_from(s, m) {
                        None => None,
                        Some(w) => Some(v + w),
                    }
                }
            },
        }
    }
}

#[via_fn]
proof fn ttl_parse_from_dec(s: Seq<u8>, i: int) {
    lemma_digits_end_ge(s, i);
    lemma_alpha_end_ge(s, digits_end(s, i));
    lemma_space_end_ge(s, alpha_end(s, digits_end(s, i)));
}

/// Whether the duration string is accepted: it parses, and its total is
/// positive and representable.
pub open spec fn ttl_accept(s: Seq<u8>) -> bool {
    match ttl_parse_from(s, 0) {
        Some(v) => 0 < v <= u64::MAX,
        None => false,
    }
}

pub open spec fn add_opt(a: int, o: Option<int>) -> Option<int> {
    match o {
        None => None,
        Some(w) => Some(a + w),
    }
}

pub proof fn lemma_ttl_value_nonneg(s: Seq<u8>, i: int)
    requires
        0 <= i <= s.len(),
    ensures
        ttl_parse_from(s, i) is Some ==> ttl_parse_from(s, i)->Some_0 >= 0,
    decreases s.len() - i,
{
    let j = digits_end(s, i);
    let k = alpha_end(s, j);
    lemma_digits_end(s, i);
    lemma_alpha_end_le(s, j);
    if j != i && k != j && unit_millis(s.subrange(j, k)) is Some {
        let u = unit_millis(s.subrange(j, k))->Some_0;
        assert(u >= 1);
        lemma_digits_val_bounds(s.subrange(i, j));
        let dv = digits_val(s.subrange(i, j));
        assert(dv * u >= 0) by (nonlinear_arith)
            requires
                dv >= 0,
                u >= 1,
        ;
        let m = space_end(s, k);
        lemma_space_end_ge(s, k);
        lemma_space_end_le(s, k);
        if m < s.len() {
            lemma_ttl_value_nonneg(s, m);
        }
    }
}

// ---------------------------------------------------------------------------
// Duration exec
// ---------------------------------------------------------------------------

/// Reads the digit run starting at `start`; `None` as the second component
/// means the run's value does not fit in a `u64`.
pub fn scan_number(b: &[u8], start: usize) -> (r: (usize, Option<u64>))
    requires
        start <= b@.len(),
    ensures
        r.0 == digits_end(b@, start as int),
        start <= r.0 <= b@.len(),
        r.1 is Some ==> r.1->Some_0 == digits_val(b@.subrange(start as int, r.0 as int)),
        r.1 is None ==> digits_val(b@.subrange(start as int, r.0 as int)) > u64::MAX,
{
    let mut i: usize = start;
    let mut acc: u64 = 0;
    let mut over: bool = false;
    while i < b.len() && 48 <= b[i] && b[i] <= 57
        invariant
            start <= i <= b@.len(),
            digits_end(b@, start as int) == digits_end(b@, i as int),
            all_digits(b@.subrange(start as int, i as int)),
            !over ==> acc == digits_val(b@.subrange(start as int, i as int)),
            over ==> digits_val(b@.subrange(start as int, i as int)) > u64::MAX,
        decreases b@.len() - i,
    {
        let c = b[i];
        let d = (c - 48) as u64;
        proof {
            let sub0 = b@.subrange(start as int, i as int);
            let sub1 = b@.subrange(start as int, (i + 1) as int);
            assert(sub1.drop_last() =~= sub0);
            assert(sub1.last() == b@[i as int]);
            assert forall|kk: int| 0 <= kk < sub1.len() implies is_digit(#[trigger] sub1[kk]) by {
                if kk < i - start {
                    assert(sub1[kk] == sub0[kk]);
                } else {
                    assert(sub1[kk] == b@[i as int]);
                }
            }
        }
        if !over {
            if acc <= (u64::MAX - d) / 10 {
                proof {
                    vstd::arithmetic::div_mod::lemma_fundamental_div_mod(
                        (u64::MAX - d) as int,
                        10,
                    );
                }
                acc = acc * 10 + d;
            } else {
                proof {
                    vstd::arithmetic::div_mod::lemma_fundamental_div_mod(
                        (u64::MAX - d) as int,
                        10,
                    );
                }
                over = true;
            }
        }
        i = i + 1;
    }
    if over {
        (i, None)
    } else {
        (i, Some(acc))
    }
}

/// First index at or after `start` whose byte is not an ASCII letter.
fn scan_alpha_end(b: &[u8], start: usize) -> (r: usize)
    requires
        start <= b@.len(),
    ensures
        r == alpha_end(b@, start as int),
        start <= r <= b@.len(),
{
    let mut i: usize = start;
    while i < b.len() && ((97 <= b[i] && b[i] <= 122) || (65 <= b[i] && b[i] <= 90))
        invariant
            start <= i <= b@.len(),
            alpha_end(b@, start as int) == alpha_end(b@, i as int),
        decreases b@.len() - i,
    {
        i = i + 1;
    }
    i
}

/// First index at or after `start` whose byte is not a space.
fn scan_space_end(b: &[u8], start: usize) -> (r: usize)
    requires
        start <= b@.len(),
    ensures
        r == space_end(b@, start as int),
        start <= r <= b@.len(),
{
    let mut i: usize = start;
    while i < b.len() && b[i] == 32
        invariant
            start <= i <= b@.len(),
            space_end(b@, start as int) == space_end(b@, i as int),
        decreases b@.len() - i,
    {
        i = i + 1;
    }
    i
}

/// Looks the unit word `b[lo..hi]` up in the unit table.
fn unit_of(b: &[u8], lo: usize, hi: usize) -> (r: Option<u64>)
    requires
        lo <= hi <= b@.len(),
    ensures
        r is Some ==> unit_millis(b@.subrange(lo as int, hi as int)) == Some(r->Some_0 as int),
        r is None ==> unit_millis(b@.subrange(lo as int, hi as int)) is None,
{
    let ghost u = b@.subrange(lo as int, hi as int);
    let w = hi - lo;
    if w == 1 {
        let c0 = b[lo];
        if c0 == 115 {
            Some(1000)
        } else if c0 == 109 {
            Some(60000)
        } else if c0 == 104 {
            Some(3600000)
        } else if c0 == 100 {
            Some(86400000)
        } else if c0 == 119 {
            Some(604800000)
        } else if c0 == 77 {
            Some(2630016000)
        } else if c0 == 121 {
            Some(31557600000)
        } else {
            None
        }
    } else if w == 2 {
        let c0 = b[lo];
        let c1 = b[lo + 1];
        if c0 == 109 && c1 == 115 {
            Some(1)
        } else if c0 == 104 && c1 == 114 {
            Some(3600000)
        } else {
            None
        }
    } else if w == 3 {
        let c0 = b[lo];
        let c1 = b[lo + 1];
        let c2 = b[lo + 2];
        if c0 == 115 && c1 == 101 && c2 == 99 {
            Some(1000)
        } else if c0 == 109 && c1 == 105 && c2 == 110 {
            Some(60000)
        } else if c0 == 104 && c1 == 114 && c2 == 115 {
            Some(3600000)
        } else if c0 == 100 && c1 == 97 && c2 == 121 {
            Some(86400000)
        } else {
            None
        }
    } else if w == 4 {
        let c0 = b[lo];
        let c1 = b[lo + 1];
        let c2 = b[lo + 2];
        let c3 = b[lo + 3];
        if c0 == 109 && c1 == 115 && c2 == 101 && c3 == 99 {
            Some(1)
        } else if c0 == 115 && c1 == 101 && c2 == 99 && c3 == 115 {
            Some(1000)
        } else if c0 == 109 && c1 == 105 && c2 == 110 && c3 == 115 {
            Some(60000)
        } else if c0 == 104 && c1 == 111 && c2 == 117 && c3 == 114 {
            Some(3600000)
        } else if c0 == 100 && c1 == 97 && c2 == 121 && c3 == 115 {
            Some(86400000)
        } else if c0 == 119 && c1 == 101 && c2 == 101 && c3 == 107 {
            Some(604800000)
        } else if c0 == 121 && c1 == 101 && c2 == 97 && c3 == 114 {
            Some(31557600000)
        } else {
            None
        }
    } else if w == 5 {
        let c0 = b[lo];
        let c1 = b[lo + 1];
        let c2 = b[lo + 2];
        let c3 = b[lo + 3];
        let c4 = b[lo + 4];
        if c0 == 104 && c1 == 111 && c2 == 117 && c3 == 114 && c4 == 115 {
            Some(3600000)
        } else if c0 == 119 && c1 == 101 && c2 == 101 && c3 == 107 && c4 == 115 {
            Some(604800000)
        } else if c0 == 109 && c1 == 111 && c2 == 110 && c3 == 116 && c4 == 104 {
            Some(2630016000)
        } else if c0 == 121 && c1 == 101 && c2 == 97 && c3 == 114 && c4 == 115 {
            Some(31557600000)
        } else {
            None
        }
    } else if w == 6 {
        let c0 = b[lo];
        let c1 = b[lo + 1];
        let c2 = b[lo + 2];
        let c3 = b[lo + 3];
        let c4 = b[lo + 4];
        let c5 = b[lo + 5];
        if c0 == 115 && c1 == 101 && c2 == 99 && c3 == 111 && c4 == 110 && c5 == 100 {
            Some(1000)
        } else if c0 == 109 && c1 == 105 && c2 == 110 && c3 == 117 && c4 == 116 && c5 == 101 {
            Some(60000)
        } else if c0 == 109 && c1 == 111 && c2 == 110 && c3 == 116 && c4 == 104 && c5 == 115 {
            Some(2630016000)
        } else {
            None
        }
    } else if w == 7 {
        let c0 = b[lo];
        let c1 = b[lo + 1];
        let c2 = b[lo + 2];
        let c3 = b[lo + 3];
        let c4 = b[lo + 4];
        let c5 = b[lo + 5];
        let c6 = b[lo + 6];
        if c0 == 115 && c1 == 101 && c2 == 99 && c3 == 111 && c4 == 110 && c5 == 100 && c6
            == 115 {
            Some(1000)
        } else if c0 == 109 && c1 == 105 && c2 == 110 && c3 == 117 && c4 == 116 && c5 == 101 && c6
            == 115 {
            Some(60000)
        } else {
            None
        }
    } else {
        None
    }
}

/// Parses a duration string; accepted strings resolve to a positive span.
pub fn parse_ttl(s: &str) -> (r: Result<TimeDiff, CmdError>)
    ensures
        r is Ok <==> ttl_accept(s.spec_bytes()),
        r is Ok ==> Some(r->Ok_0.millis as int) == ttl_parse_from(s.spec_bytes(), 0),
        r is Ok ==> r->Ok_0.millis > 0,
        r is Err ==> r->Err_0 == CmdError::InvalidArgument(ArgField::Ttl),
{
    let b = s.as_bytes();
    let ghost bs = s.spec_bytes();
    let mut i: usize = 0;
    let mut acc: u64 = 0;
    loop
        invariant
            0 <= i <= b@.len(),
            b@ == bs,
            bs == s.spec_bytes(),
            ttl_parse_from(bs, 0) == add_opt(acc as int, ttl_parse_from(bs, i as int)),
        decreases b@.len() - i,
    {
        let (j, dv) = scan_number(b, i);
        if j == i {
            return Err(CmdError::InvalidArgument(ArgField::Ttl));
        }
        let k = scan_alpha_end(b, j);
        if k == j {
            return Err(CmdError::InvalidArgument(ArgField::Ttl));
        }
        let u = match unit_of(b, j, k) {
            Some(u) => u,
            None => {
                return Err(CmdError::InvalidArgument(ArgField::Ttl));
            },
        };
        let m = scan_space_end(b, k);
        let ghost uspec = unit_millis(bs.subrange(j as int, k as int))->Some_0;
        let ghost dvspec = digits_val(bs.subrange(i as int, j as int));
        let ghost vspec = dvspec * uspec;
        proof {
            assert(uspec == u as int);
            assert(uspec >= 1);
            lemma_digits_end(bs, i as int);
            lemma_digits_val_bounds(bs.subrange(i as int, j as int));
            if (m as int) < bs.len() {
                lemma_ttl_value_nonneg(bs, m as int);
            }
        }
        let v_opt: Option<u64> = match dv {
            Some(dval) => dval.checked_mul(u),
            None => None,
        };
        proof {
            if v_opt is None {
                if dv is None {
                    assert(dvspec > u64::MAX);
                    assert(vspec >= dvspec) by (nonlinear_arith)
                        requires
                            dvspec >= 0,
                            uspec >= 1,
                            vspec == dvspec * uspec,
                    ;
                } else {
                    assert(vspec > u64::MAX);
                }
                assert(vspec > u64::MAX);
            } else {
                assert(vspec == v_opt->Some_0 as int);
            }
            assert(vspec >= 0) by (nonlinear_arith)
                requires
                    dvspec >= 0,
                    uspec >= 1,
                    vspec == dvspec * uspec,
            ;
        }
        match v_opt {
            None => {
                // The component alone exceeds the representable range, so
                // the total does too (later components are nonnegative).
                return Err(CmdError::InvalidArgument(ArgField::Ttl));
            },
            Some(v) => {
                if m >= b.len() {
                    match acc.checked_add(v) {
                        None => {
                            return Err(CmdError::InvalidArgument(ArgField::Ttl));
                        },
                        Some(t) => {
                            if t == 0 {
                                return Err(CmdError::InvalidArgument(ArgField::Ttl));
                            }
                            return Ok(TimeDiff { millis: t });
                        },
                    }
                } else {
                    match acc.checked_add(v) {
                        None => {
                            return Err(CmdError::InvalidArgument(ArgField::Ttl));
                        },
                        Some(t) => {
                            acc = t;
                            i = m;
                        },
                    }
                }
            },
        }
    }
}

} // verus!
