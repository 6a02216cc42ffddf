//! Civil dates, ISO 8601 instants and the online window of a last-seen stamp.
use vstd::prelude::*;

use crate::text::push_padded;

verus! {

/// Whether the Gregorian year has a 29th of February.
pub open spec fn is_leap(year: int) -> bool {
    year % 4 == 0 && (year % 100 != 0 || year % 400 == 0)
}

/// Days in a month of a year.
pub open spec fn days_in_month(year: int, month: int) -> int {
    if month == 2 {
        if is_leap(year) {
            29
        } else {
            28
        }
    } else if month == 4 || month == 6 || month == 9 || month == 11 {
        30
    } else {
        31
    }
}

/// Whether `(year, month, day)` is a date of the Gregorian calendar.
pub open spec fn valid_date(date: (int, int, int)) -> bool {
    1 <= date.1 <= 12 && 1 <= date.2 <= days_in_month(date.0, date.1)
}

/// Days before the first of March of `year`, counted from a fixed origin.
pub open spec fn days_before_march(year: int) -> int {
    365 * year + year / 4 - year / 100 + year / 400
}

/// Days from 1970-01-01 to a date. Months start in March, so that the leap day
/// ends the year; out-of-range months and days count on as they stand.
pub open spec fn days_of(date: (int, int, int)) -> int {
    let y = if date.1 <= 2 {
        date.0 - 1
    } else {
        date.0
    };
    days_before_march(y) + (153 * ((date.1 + 9) % 12) + 2) / 5 + date.2 - 1 - 719468
}

/// The date that is `z` days after 1970-01-01.
pub open spec fn civil(z: int) -> (int, int, int) {
    choose|date: (int, int, int)| valid_date(date) && #[trigger] days_of(date) == z
}

#[verifier::spinoff_prover]
proof fn lemma_year_of_era(doe: int)
    requires
        0 <= doe < 146097,
    ensures
        ({
            let yoe = (doe - doe / 1460 + doe / 36524 - doe / 146096) / 365;
            &&& 0 <= yoe < 400
            &&& days_before_march(yoe) <= doe < days_before_march(yoe + 1)
        }),
{
}

#[verifier::spinoff_prover]
proof fn lemma_era_shift(era: int, yoe: int)
    ensures
        days_before_march(yoe + era * 400) == days_before_march(yoe) + era * 146097,
{
    let y = yoe + era * 400;
    assert(y / 4 == yoe / 4 + era * 100);
    assert(y / 100 == yoe / 100 + era * 4);
    assert(y / 400 == yoe / 400 + era);
}

/// A quotient grows by one exactly where the dividend becomes a multiple.
proof fn lemma_next_quotient(y: int, d: int)
    requires
        d > 1,
    ensures
        (y + 1) / d == y / d + if (y + 1) % d == 0 {
            1int
        } else {
            0int
        },
{
    let q = y / d;
    let r = y % d;
    vstd::arithmetic::div_mod::lemma_fundamental_div_mod(y, d);
    vstd::arithmetic::div_mod::lemma_mod_bound(y, d);
    vstd::arithmetic::mul::lemma_mul_is_commutative(q, d);
    if r + 1 < d {
        vstd::arithmetic::div_mod::lemma_fundamental_div_mod_converse(y + 1, d, q, r + 1);
    } else {
        assert((q + 1) * d == q * d + d) by (nonlinear_arith);
        vstd::arithmetic::div_mod::lemma_fundamental_div_mod_converse(y + 1, d, q + 1, 0);
    }
}

#[verifier::spinoff_prover]
proof fn lemma_march_leap(y: int)
    ensures
        days_before_march(y + 1) - days_before_march(y) == if is_leap(y + 1) {
            366int
        } else {
            365int
        },
{
    let n = y + 1;
    lemma_next_quotient(y, 4);
    lemma_next_quotient(y, 100);
    lemma_next_quotient(y, 400);
    if n % 100 == 0 {
        let k = n / 100;
        assert(n == 25 * k * 4);
        vstd::arithmetic::div_mod::lemma_fundamental_div_mod_converse(n, 4, 25 * k, 0);
    }
    if n % 400 == 0 {
        let k = n / 400;
        assert(n == 4 * k * 100);
        vstd::arithmetic::div_mod::lemma_fundamental_div_mod_converse(n, 100, 4 * k, 0);
    }
}

#[verifier::spinoff_prover]
proof fn lemma_month_of_doy(doy: int)
    requires
        0 <= doy <= 365,
    ensures
        ({
            let mp = (5 * doy + 2) / 153;
            let d = doy - (153 * mp + 2) / 5 + 1;
            let m = if mp < 10 {
                mp + 3
            } else {
                mp - 9
            };
            &&& 0 <= mp <= 11
            &&& (m + 9) % 12 == mp
            &&& 1 <= d <= 31
            &&& (m == 4 || m == 6 || m == 9 || m == 11 ==> d <= 30)
            &&& (m == 2 ==> d <= 29 && (d == 29 ==> doy == 365))
        }),
{
    let mp = (5 * doy + 2) / 153;
    assert(mp == 0 || mp == 1 || mp == 2 || mp == 3 || mp == 4 || mp == 5 || mp == 6 || mp == 7
        || mp == 8 || mp == 9 || mp == 10 || mp == 11);
}

/// Days since 1970-01-01 to `(year, month, day)`.
pub fn civil_from_days(z: i64) -> (r: (i64, u32, u32))
    requires
        z + 719468 <= i64::MAX,
    ensures
        valid_date((r.0 as int, r.1 as int, r.2 as int)),
        days_of((r.0 as int, r.1 as int, r.2 as int)) == z,
{
    let shifted: i64 = z + 719_468;
    let era: i64 = if shifted >= 0 {
        shifted / 146_097
    } else {
        (shifted - 146_096) / 146_097
    };
    let doe: i64 = shifted - era * 146_097;
    assert(0 <= doe < 146097);
    proof {
        lemma_year_of_era(doe as int);
    }
    let yoe: i64 = (doe - doe / 1460 + doe / 36_524 - doe / 146_096) / 365;
    let y: i64 = yoe + era * 400;
    let doy: i64 = doe - (365 * yoe + yoe / 4 - yoe / 100);
    proof {
        lemma_march_leap(yoe as int);
        lemma_march_leap(y as int);
        lemma_era_shift(era as int, yoe as int);
        lemma_era_shift(era as int, yoe + 1);
        lemma_month_of_doy(doy as int);
    }
    let mp: i64 = (5 * doy + 2) / 153;
    let d: i64 = doy - (153 * mp + 2) / 5 + 1;
    let m: i64 = if mp < 10 {
        mp + 3
    } else {
        mp - 9
    };
    (if m <= 2 {
        y + 1
    } else {
        y
    }, m as u32, d as u32)
}

/// Whether a byte is an ASCII decimal digit.
pub open spec fn is_digit(c: u8) -> bool {
    48 <= c <= 57
}

/// The number that a non-empty run of ASCII digits writes.
pub open spec fn digits_value(s: Seq<u8>) -> Option<int>
    decreases s.len(),
{
    if s.len() == 0 || !is_digit(s.last()) {
        None
    } else if s.len() == 1 {
        Some(s.last() - 48)
    } else {
        match digits_value(s.drop_last()) {
            Some(v) => Some(10 * v + (s.last() - 48)),
            None => None,
        }
    }
}

/// The number that digits with at most one leading sign write.
pub open spec fn int_value(s: Seq<u8>) -> Option<int> {
    if s.len() > 0 && (s[0] == 43 || s[0] == 45) {
        match digits_value(s.skip(1)) {
            Some(v) => Some(
                if s[0] == 45 {
                    -v
                } else {
                    v
                },
            ),
            None => None,
        }
    } else {
        digits_value(s)
    }
}

/// The integer in the `n` bytes from `i` on.
pub open spec fn field_value(b: Seq<u8>, i: int, n: int) -> Option<int> {
    int_value(b.subrange(i, i + n))
}

/// How many ASCII digits stand in `b` from `i` on.
pub open spec fn digit_run(b: Seq<u8>, i: int) -> int
    decreases b.len() - i,
{
    if 0 <= i < b.len() && is_digit(b[i]) {
        1 + digit_run(b, i + 1)
    } else {
        0
    }
}

/// Whether the six number fields of `YYYY-MM-DDThh:mm:ss` are numbers.
pub open spec fn iso_fields_ok(b: Seq<u8>) -> bool {
    &&& b.len() >= 19
    &&& field_value(b, 0, 4) is Some
    &&& field_value(b, 5, 2) is Some
    &&& field_value(b, 8, 2) is Some
    &&& field_value(b, 11, 2) is Some
    &&& field_value(b, 14, 2) is Some
    &&& field_value(b, 17, 2) is Some
}

/// Where the zone of an ISO stamp starts: behind the seconds and the fraction.
pub open spec fn zone_start(b: Seq<u8>) -> int {
    if b.len() > 19 && b[19] == 46 {
        20 + digit_run(b, 20)
    } else {
        19
    }
}

/// The `k`-th digit of the fraction, zero behind its end.
pub open spec fn fraction_digit(b: Seq<u8>, k: int) -> int {
    if b.len() > 19 && b[19] == 46 && k < digit_run(b, 20) {
        b[20 + k] - 48
    } else {
        0
    }
}

/// The milliseconds of the fraction: its first three digits.
pub open spec fn fraction_millis(b: Seq<u8>) -> int {
    100 * fraction_digit(b, 0) + 10 * fraction_digit(b, 1) + fraction_digit(b, 2)
}

/// Where the minutes of a signed zone would stand: behind the hours and an
/// optional colon.
pub open spec fn zone_minutes_start(b: Seq<u8>) -> int {
    let i = zone_start(b);
    if i + 3 < b.len() && b[i + 3] == 58 {
        i + 4
    } else {
        i + 3
    }
}

/// The minutes that the zone adds to UTC: nothing or `Z` is zero, a signed zone
/// has hours and, where two more bytes follow, minutes. `None`: no zone, or one that
/// breaks off before its hours.
pub open spec fn zone_value(b: Seq<u8>) -> Option<int> {
    let i = zone_start(b);
    if i >= b.len() || b[i] == 90 {
        Some(0)
    } else if (b[i] == 43 || b[i] == 45) && i + 3 <= b.len() {
        let j = zone_minutes_start(b);
        let minutes = if j + 2 <= b.len() {
            field_value(b, j, 2)
        } else {
            Some(0)
        };
        match (field_value(b, i + 1, 2), minutes) {
            (Some(h), Some(m)) => Some(
                if b[i] == 45 {
                    -(h * 60 + m)
                } else {
                    h * 60 + m
                },
            ),
            _ => None,
        }
    } else {
        None
    }
}

/// Unix epoch milliseconds of `YYYY-MM-DDThh:mm:ss[.fff...][Z|+hh[:]mm|-hh[:]mm]`,
/// in UTF-8 bytes.
pub open spec fn iso_millis(b: Seq<u8>) -> Option<int> {
    if iso_fields_ok(b) && zone_value(b) is Some {
        let date = (
            field_value(b, 0, 4)->0,
            field_value(b, 5, 2)->0,
            field_value(b, 8, 2)->0,
        );
        Some(
            days_of(date) * 86400000 + field_value(b, 11, 2)->0 * 3600000 + field_value(
                b,
                14,
                2,
            )->0 * 60000 + field_value(b, 17, 2)->0 * 1000 + fraction_millis(b) - zone_value(b)->0
                * 60000,
        )
    } else {
        None
    }
}

proof fn lemma_digits_bound(s: Seq<u8>)
    requires
        s.len() <= 4,
    ensures
        digits_value(s) matches Some(v) ==> 0 <= v <= 9999 && (s.len() <= 3 ==> v <= 999) && (
        s.len() <= 2 ==> v <= 99) && (s.len() <= 1 ==> v <= 9),
    decreases s.len(),
{
    if s.len() > 0 {
        lemma_digits_bound(s.drop_last());
    }
}

proof fn lemma_digits_prefix_none(s: Seq<u8>, k: int)
    requires
        0 < k <= s.len(),
        digits_value(s.take(k)) is None,
    ensures
        digits_value(s) is None,
    decreases s.len(),
{
    if k < s.len() {
        assert(s.drop_last().take(k) =~= s.take(k));
        lemma_digits_prefix_none(s.drop_last(), k);
    } else {
        assert(s.take(k) =~= s);
    }
}

/// The number in `b[from..to]`, digits only.
fn digits_in(b: &[u8], from: usize, to: usize) -> (r: Option<i64>)
    requires
        from <= to <= b@.len(),
        to - from <= 4,
    ensures
        r is Some == (digits_value(b@.subrange(from as int, to as int)) is Some),
        r matches Some(v) ==> digits_value(b@.subrange(from as int, to as int)) == Some(v as int),
        r matches Some(v) ==> 0 <= v <= 9999 && (to - from <= 2 ==> v <= 99),
{
    if from == to {
        return None;
    }
    let ghost s = b@.subrange(from as int, to as int);
    let mut value: i64 = 0;
    let mut i: usize = from;
    while i < to
        invariant
            from < to <= b@.len(),
            to - from <= 4,
            from <= i <= to,
            s == b@.subrange(from as int, to as int),
            i == from ==> value == 0,
            i > from ==> digits_value(s.take(i - from)) == Some(value as int),
        decreases to - i,
    {
        let c: u8 = b[i];
        assert(s.take(i - from + 1).drop_last() =~= s.take(i - from));
        assert(s.take(i - from + 1).last() == c);
        if c < 48 || c > 57 {
            proof {
                lemma_digits_prefix_none(s, i - from + 1);
            }
            return None;
        }
        proof {
            lemma_digits_bound(s.take(i - from));
        }
        value = 10 * value + (c - 48) as i64;
        i = i + 1;
    }
    proof {
        assert(s.take(to - from) =~= s);
        lemma_digits_bound(s);
    }
    Some(value)
}

/// The integer in the `n` bytes from `i` on, with at most one leading sign.
fn int_field(b: &[u8], i: usize, n: usize) -> (r: Option<i64>)
    requires
        i + n <= b@.len(),
        1 <= n <= 4,
    ensures
        r is Some == (field_value(b@, i as int, n as int) is Some),
        r matches Some(v) ==> field_value(b@, i as int, n as int) == Some(v as int),
        r matches Some(v) ==> -999 <= v <= 9999 && (n <= 2 ==> -9 <= v <= 99),
{
    let ghost s = b@.subrange(i as int, i + n);
    let c: u8 = b[i];
    if c == 43 || c == 45 {
        assert(s.skip(1) =~= b@.subrange(i + 1, i + n));
        proof {
            lemma_digits_bound(s.skip(1));
        }
        match digits_in(b, i + 1, i + n) {
            Some(v) => if c == 45 {
                Some(-v)
            } else {
                Some(v)
            },
            None => None,
        }
    } else {
        digits_in(b, i, i + n)
    }
}

/// The end of the run of digits that starts at `i`.
fn digits_end(b: &[u8], i: usize) -> (r: usize)
    requires
        i <= b@.len(),
    ensures
        r == i + digit_run(b@, i as int),
        i <= r <= b@.len(),
        forall|k: int| i <= k < r ==> is_digit(#[trigger] b@[k]),
{
    let mut j: usize = i;
    while j < b.len() && 48 <= b[j] && b[j] <= 57
        invariant
            i <= j <= b@.len(),
            digit_run(b@, i as int) == j - i + digit_run(b@, j as int),
            forall|k: int| i <= k < j ==> is_digit(#[trigger] b@[k]),
        decreases b@.len() - j,
    {
        j = j + 1;
    }
    j
}

/// The digit at `k` of the fraction `b[start..end]`, zero behind its end.
fn digit_or_zero(b: &[u8], k: usize, end: usize) -> (r: i64)
    requires
        end <= b@.len(),
        k < end ==> is_digit(b@[k as int]),
    ensures
        r == if k < end {
            b@[k as int] - 48
        } else {
            0int
        },
        0 <= r <= 9,
{
    if k < end {
        (b[k] - 48) as i64
    } else {
        0
    }
}

/// Days from 1970-01-01 to the date that the three numbers name.
fn days_from_civil(year: i64, month: i64, day: i64) -> (r: i64)
    requires
        -999 <= year <= 9999,
        -9 <= month <= 99,
        -9 <= day <= 99,
    ensures
        r == days_of((year as int, month as int, day as int)),
        -2_000_000 <= r <= 4_000_000,
{
    let y: i64 = if month <= 2 {
        year - 1
    } else {
        year
    };
    let era: i64 = if y >= 0 {
        y / 400
    } else {
        (y - 399) / 400
    };
    let yoe: i64 = y - era * 400;
    proof {
        lemma_era_shift(era as int, yoe as int);
    }
    let mp: i64 = (month + 9) % 12;
    let doy: i64 = (153 * mp + 2) / 5 + day - 1;
    let doe: i64 = yoe * 365 + yoe / 4 - yoe / 100 + doy;
    era * 146_097 + doe - 719_468
}

/// The minutes of the zone that starts at `i`.
fn zone_minutes(b: &[u8], i: usize) -> (r: Option<i64>)
    requires
        i <= b@.len(),
        i == zone_start(b@),
    ensures
        r is Some == (zone_value(b@) is Some),
        r matches Some(v) ==> zone_value(b@) == Some(v as int) && -6039 <= v <= 6039,
{
    if i >= b.len() || b[i] == 90 {
        return Some(0);
    }
    let c: u8 = b[i];
    if (c != 43 && c != 45) || b.len() - i < 3 {
        return None;
    }
    let oh: i64 = int_field(b, i + 1, 2)?;
    let mut om: i64 = 0;
    let mut j: usize = i + 3;
    if j < b.len() && b[j] == 58 {
        j = j + 1;
    }
    if b.len() - j >= 2 {
        om = int_field(b, j, 2)?;
    }
    if c == 45 {
        Some(-(oh * 60 + om))
    } else {
        Some(oh * 60 + om)
    }
}

/// Parses `YYYY-MM-DDThh:mm:ss[.fff...][Z|+hh[:]mm|-hh[:]mm]` to Unix epoch
/// milliseconds.
pub fn parse_iso_millis(s: &str) -> (r: Option<i64>)
    ensures
        r is Some == (iso_millis(vstd::utf8::encode_utf8(s@)) is Some),
        r matches Some(v) ==> iso_millis(vstd::utf8::encode_utf8(s@)) == Some(v as int),
        r matches Some(v) ==> -1_000_000_000_000_000 < v < 1_000_000_000_000_000,
{
    let b: &[u8] = s.as_bytes();
    if b.len() < 19 {
        return None;
    }
    let year: i64 = int_field(b, 0, 4)?;
    let month: i64 = int_field(b, 5, 2)?;
    let day: i64 = int_field(b, 8, 2)?;
    let hour: i64 = int_field(b, 11, 2)?;
    let minute: i64 = int_field(b, 14, 2)?;
    let second: i64 = int_field(b, 17, 2)?;
    let mut frac_ms: i64 = 0;
    let mut i: usize = 19;
    if b.len() > 19 && b[19] == 46 {
        i = digits_end(b, 20);
        frac_ms = 100 * digit_or_zero(b, 20, i) + 10 * digit_or_zero(b, 21, i) + digit_or_zero(
            b,
            22,
            i,
        );
    }
    let offset_min: i64 = zone_minutes(b, i)?;
    let days: i64 = days_from_civil(year, month, day);
    let utc_ms: i64 = days * 86_400_000 + hour * 3_600_000 + minute * 60_000 + second * 1_000
        + frac_ms;
    Some(utc_ms - offset_min * 60_000)
}

/// `YYYY-MM-DD`.
#[verifier::opaque]
pub open spec fn date_text(date: (int, int, int)) -> Seq<char> {
    crate::text::padded_int(date.0, 4) + seq!['-'] + crate::text::padded_int(date.1, 2) + seq!['-']
        + crate::text::padded_int(date.2, 2)
}

/// `HH:MM:SS.mmm` of a millisecond of the day.
#[verifier::opaque]
pub open spec fn clock_text(rem: int) -> Seq<char> {
    crate::text::padded_int(rem / 3600000, 2) + seq![':'] + crate::text::padded_int(
        rem % 3600000 / 60000,
        2,
    ) + seq![':'] + crate::text::padded_int(rem % 60000 / 1000, 2) + seq!['.']
        + crate::text::padded_int(rem % 1000, 3)
}

/// `YYYY-MM-DDTHH:MM:SS.mmmZ` of a Unix epoch millisecond.
pub open spec fn iso_text(ms: int) -> Seq<char> {
    date_text(civil(ms / 86400000)) + seq!['T'] + clock_text(ms % 86400000) + seq!['Z']
}

proof fn lemma_years_apart(y1: int, y2: int)
    requires
        y1 < y2,
    ensures
        days_before_march(y1 + 1) <= days_before_march(y2),
{
}

proof fn lemma_doy_bounds(date: (int, int, int))
    requires
        valid_date(date),
    ensures
        ({
            let y = if date.1 <= 2 {
                date.0 - 1
            } else {
                date.0
            };
            let mp = (date.1 + 9) % 12;
            let doy = (153 * mp + 2) / 5 + date.2 - 1;
            &&& 0 <= doy < days_before_march(y + 1) - days_before_march(y)
            &&& mp == (5 * doy + 2) / 153
        }),
{
    let m = date.1;
    let y = if m <= 2 {
        date.0 - 1
    } else {
        date.0
    };
    lemma_march_leap(y);
    assert(m == 1 || m == 2 || m == 3 || m == 4 || m == 5 || m == 6 || m == 7 || m == 8 || m == 9
        || m == 10 || m == 11 || m == 12);
}

/// Two dates that are equally many days after 1970-01-01 are the same date.
pub proof fn law_days_injective(a: (int, int, int), b: (int, int, int))
    requires
        valid_date(a),
        valid_date(b),
        days_of(a) == days_of(b),
    ensures
        a == b,
{
    lemma_doy_bounds(a);
    lemma_doy_bounds(b);
    let ya = if a.1 <= 2 {
        a.0 - 1
    } else {
        a.0
    };
    let yb = if b.1 <= 2 {
        b.0 - 1
    } else {
        b.0
    };
    if ya < yb {
        lemma_years_apart(ya, yb);
    } else if yb < ya {
        lemma_years_apart(yb, ya);
    }
}

/// The day count starts at 1970-01-01 and grows by one from each day to the
/// next: to the next day of the month, to the next month, to the next year.
pub proof fn law_next_day(date: (int, int, int))
    requires
        valid_date(date),
    ensures
        days_of((1970, 1, 1)) == 0,
        days_of(
            if date.2 < days_in_month(date.0, date.1) {
                (date.0, date.1, date.2 + 1)
            } else if date.1 < 12 {
                (date.0, date.1 + 1, 1)
            } else {
                (date.0 + 1, 1, 1)
            },
        ) == days_of(date) + 1,
{
    let m = date.1;
    lemma_march_leap(date.0 - 1);
    assert(m == 1 || m == 2 || m == 3 || m == 4 || m == 5 || m == 6 || m == 7 || m == 8 || m == 9
        || m == 10 || m == 11 || m == 12);
}

/// Every date is the one that its own day count names.
pub proof fn law_civil_inverts_days(date: (int, int, int))
    requires
        valid_date(date),
    ensures
        civil(days_of(date)) == date,
{
    let c = civil(days_of(date));
    assert(valid_date(c) && days_of(c) == days_of(date));
    law_days_injective(c, date);
}

/// Appends `YYYY-MM-DD`.
fn push_date(out: &mut String, year: i64, month: u32, day: u32)
    requires
        year > i64::MIN,
    ensures
        final(out)@ == old(out)@ + date_text((year as int, month as int, day as int)),
{
    push_padded(out, year, 4);
    out.push('-');
    push_padded(out, month as i64, 2);
    out.push('-');
    push_padded(out, day as i64, 2);
    proof {
        reveal(date_text);
        assert(out@ =~= old(out)@ + date_text((year as int, month as int, day as int)));
    }
}

/// Appends `HH:MM:SS.mmm`.
fn push_clock(out: &mut String, rem: i64)
    requires
        0 <= rem < 86400000,
    ensures
        final(out)@ == old(out)@ + clock_text(rem as int),
{
    let hour: i64 = rem / 3_600_000;
    let minute: i64 = (rem % 3_600_000) / 60_000;
    let second: i64 = (rem % 60_000) / 1000;
    let millis: i64 = rem % 1000;
    push_padded(out, hour, 2);
    out.push(':');
    push_padded(out, minute, 2);
    out.push(':');
    push_padded(out, second, 2);
    out.push('.');
    push_padded(out, millis, 3);
    proof {
        reveal(clock_text);
        assert(out@ =~= old(out)@ + clock_text(rem as int));
    }
}

/// `ms` as `YYYY-MM-DDTHH:MM:SS.mmmZ`.
pub fn iso_from_millis(ms: i64) -> (r: String)
    ensures
        r@ == iso_text(ms as int),
{
    let mut days: i64 = ms / 86_400_000;
    let mut rem: i64 = ms % 86_400_000;
    if rem < 0 {
        days = days - 1;
        rem = rem + 86_400_000;
    }
    assert(days == ms as int / 86400000 && rem == ms as int % 86400000);
    let (year, month, day): (i64, u32, u32) = civil_from_days(days);
    assert(year > i64::MIN);
    proof {
        law_civil_inverts_days((year as int, month as int, day as int));
    }
    let mut out: String = String::new();
    push_date(&mut out, year, month, day);
    out.push('T');
    push_clock(&mut out, rem);
    out.push('Z');
    assert(out@ =~= iso_text(ms as int));
    out
}

/// Every day count names a date, and that date has that day count.
pub proof fn law_civil_total(z: int)
    ensures
        valid_date(civil(z)),
        days_of(civil(z)) == z,
{
    let shifted = z + 719468;
    let era = shifted / 146097;
    let doe = shifted % 146097;
    lemma_year_of_era(doe);
    let yoe = (doe - doe / 1460 + doe / 36524 - doe / 146096) / 365;
    let y = yoe + era * 400;
    let doy = doe - days_before_march(yoe);
    lemma_march_leap(yoe);
    lemma_march_leap(y);
    lemma_era_shift(era, yoe);
    lemma_era_shift(era, yoe + 1);
    lemma_month_of_doy(doy);
    let mp = (5 * doy + 2) / 153;
    let d = doy - (153 * mp + 2) / 5 + 1;
    let m = if mp < 10 {
        mp + 3
    } else {
        mp - 9
    };
    let date = (
        if m <= 2 {
            y + 1
        } else {
            y
        },
        m,
        d,
    );
    assert(valid_date(date) && days_of(date) == z);
}

proof fn lemma_padded_2(v: int)
    requires
        0 <= v < 100,
    ensures
        crate::text::padded_int(v, 2) == seq![
            crate::text::digit_char(v / 10),
            crate::text::digit_char(v % 10),
        ],
{
    reveal_with_fuel(crate::text::decimal, 3);
    assert(crate::text::padded_int(v, 2) =~= seq![
        crate::text::digit_char(v / 10),
        crate::text::digit_char(v % 10),
    ]);
}

proof fn lemma_padded_3(v: int)
    requires
        0 <= v < 1000,
    ensures
        crate::text::padded_int(v, 3) == seq![
            crate::text::digit_char(v / 100),
            crate::text::digit_char(v / 10 % 10),
            crate::text::digit_char(v % 10),
        ],
{
    reveal_with_fuel(crate::text::decimal, 4);
    assert(crate::text::padded_int(v, 3) =~= seq![
        crate::text::digit_char(v / 100),
        crate::text::digit_char(v / 10 % 10),
        crate::text::digit_char(v % 10),
    ]);
}

proof fn lemma_padded_4(v: int)
    requires
        0 <= v < 10000,
    ensures
        crate::text::padded_int(v, 4) == seq![
            crate::text::digit_char(v / 1000),
            crate::text::digit_char(v / 100 % 10),
            crate::text::digit_char(v / 10 % 10),
            crate::text::digit_char(v % 10),
        ],
{
    reveal_with_fuel(crate::text::decimal, 5);
    assert(crate::text::padded_int(v, 4) =~= seq![
        crate::text::digit_char(v / 1000),
        crate::text::digit_char(v / 100 % 10),
        crate::text::digit_char(v / 10 % 10),
        crate::text::digit_char(v % 10),
    ]);
}

proof fn lemma_two_digits(b: Seq<u8>, i: int)
    requires
        0 <= i,
        i + 2 <= b.len(),
        is_digit(b[i]),
        is_digit(b[i + 1]),
    ensures
        field_value(b, i, 2) == Some(10 * (b[i] - 48) + (b[i + 1] - 48)),
{
    reveal_with_fuel(digits_value, 3);
    let s = b.subrange(i, i + 2);
    assert(s.drop_last().last() == b[i]);
    assert(s.last() == b[i + 1]);
}

proof fn lemma_four_digits(b: Seq<u8>, i: int)
    requires
        0 <= i,
        i + 4 <= b.len(),
        is_digit(b[i]),
        is_digit(b[i + 1]),
        is_digit(b[i + 2]),
        is_digit(b[i + 3]),
    ensures
        field_value(b, i, 4) == Some(
            1000 * (b[i] - 48) + 100 * (b[i + 1] - 48) + 10 * (b[i + 2] - 48) + (b[i + 3] - 48),
        ),
{
    reveal_with_fuel(digits_value, 5);
    let s = b.subrange(i, i + 4);
    assert(s.drop_last().drop_last().drop_last().last() == b[i]);
    assert(s.drop_last().drop_last().last() == b[i + 1]);
    assert(s.drop_last().last() == b[i + 2]);
    assert(s.last() == b[i + 3]);
}

proof fn lemma_date_chars(date: (int, int, int))
    requires
        0 <= date.0 <= 9999,
        0 <= date.1 < 100,
        0 <= date.2 < 100,
    ensures
        ({
            let t = date_text(date);
            &&& t.len() == 10
            &&& t[0] == crate::text::digit_char(date.0 / 1000)
            &&& t[1] == crate::text::digit_char(date.0 / 100 % 10)
            &&& t[2] == crate::text::digit_char(date.0 / 10 % 10)
            &&& t[3] == crate::text::digit_char(date.0 % 10)
            &&& t[4] == '-'
            &&& t[5] == crate::text::digit_char(date.1 / 10)
            &&& t[6] == crate::text::digit_char(date.1 % 10)
            &&& t[7] == '-'
            &&& t[8] == crate::text::digit_char(date.2 / 10)
            &&& t[9] == crate::text::digit_char(date.2 % 10)
            &&& vstd::utf8::is_ascii_chars(t)
        }),
{
    reveal(date_text);
    lemma_padded_4(date.0);
    lemma_padded_2(date.1);
    lemma_padded_2(date.2);
}

proof fn lemma_clock_chars(rem: int)
    requires
        0 <= rem < 86400000,
    ensures
        ({
            let h = rem / 3600000;
            let mi = rem % 3600000 / 60000;
            let se = rem % 60000 / 1000;
            let fr = rem % 1000;
            let t = clock_text(rem);
            &&& t.len() == 12
            &&& t[0] == crate::text::digit_char(h / 10)
            &&& t[1] == crate::text::digit_char(h % 10)
            &&& t[2] == ':'
            &&& t[3] == crate::text::digit_char(mi / 10)
            &&& t[4] == crate::text::digit_char(mi % 10)
            &&& t[5] == ':'
            &&& t[6] == crate::text::digit_char(se / 10)
            &&& t[7] == crate::text::digit_char(se % 10)
            &&& t[8] == '.'
            &&& t[9] == crate::text::digit_char(fr / 100)
            &&& t[10] == crate::text::digit_char(fr / 10 % 10)
            &&& t[11] == crate::text::digit_char(fr % 10)
            &&& vstd::utf8::is_ascii_chars(t)
        }),
{
    reveal(clock_text);
    lemma_padded_2(rem / 3600000);
    lemma_padded_2(rem % 3600000 / 60000);
    lemma_padded_2(rem % 60000 / 1000);
    lemma_padded_3(rem % 1000);
}

proof fn lemma_stamp_bytes(d: Seq<char>, c: Seq<char>, b: Seq<u8>)
    requires
        d.len() == 10,
        c.len() == 12,
        vstd::utf8::is_ascii_chars(d),
        vstd::utf8::is_ascii_chars(c),
        b == vstd::utf8::encode_utf8(d + seq!['T'] + c + seq!['Z']),
    ensures
        b.len() == 24,
        forall|i: int| 0 <= i < 10 ==> #[trigger] b[i] == d[i] as u8,
        forall|i: int| 11 <= i < 23 ==> #[trigger] b[i] == c[i - 11] as u8,
        b[23] == 90,
{
    let t = d + seq!['T'] + c + seq!['Z'];
    assert forall|i: int| 0 <= i < t.len() implies '\0' <= #[trigger] t[i] <= '\u{7f}' by {
        if i < 10 {
            assert(t[i] == d[i]);
        } else if 11 <= i < 23 {
            assert(t[i] == c[i - 11]);
        }
    }
    vstd::utf8::is_ascii_chars_encode_utf8(t);
}

#[verifier::spinoff_prover]
proof fn lemma_four_parts(v: int)
    requires
        0 <= v < 10000,
    ensures
        0 <= v / 1000 < 10,
        1000 * (v / 1000) + 100 * (v / 100 % 10) + 10 * (v / 10 % 10) + v % 10 == v,
{
    vstd::arithmetic::div_mod::lemma_div_denominator(v, 10, 10);
    vstd::arithmetic::div_mod::lemma_div_denominator(v, 100, 10);
    let tens = v / 10;
    let hundreds = tens / 10;
    let thousands = hundreds / 10;
    assert(v / 100 == hundreds && v / 1000 == thousands);
    assert(hundreds == 10 * thousands + hundreds % 10);
    assert(tens == 10 * hundreds + tens % 10);
    assert(v == 10 * tens + v % 10);
}

proof fn lemma_date_bytes(date: (int, int, int), b: Seq<u8>)
    requires
        0 <= date.0 <= 9999,
        0 <= date.1 < 100,
        0 <= date.2 < 100,
        b.len() >= 10,
        forall|i: int| 0 <= i < 10 ==> #[trigger] b[i] == date_text(date)[i] as u8,
    ensures
        b[0] == 48 + date.0 / 1000,
        b[1] == 48 + date.0 / 100 % 10,
        b[2] == 48 + date.0 / 10 % 10,
        b[3] == 48 + date.0 % 10,
        b[5] == 48 + date.1 / 10,
        b[6] == 48 + date.1 % 10,
        b[8] == 48 + date.2 / 10,
        b[9] == 48 + date.2 % 10,
{
    lemma_date_chars(date);
    lemma_four_parts(date.0);
}

proof fn lemma_date_fields(date: (int, int, int), b: Seq<u8>)
    requires
        0 <= date.0 <= 9999,
        0 <= date.1 < 100,
        0 <= date.2 < 100,
        b.len() >= 10,
        forall|i: int| 0 <= i < 10 ==> #[trigger] b[i] == date_text(date)[i] as u8,
    ensures
        field_value(b, 0, 4) == Some(date.0),
        field_value(b, 5, 2) == Some(date.1),
        field_value(b, 8, 2) == Some(date.2),
{
    lemma_date_bytes(date, b);
    lemma_four_parts(date.0);
    assert(field_value(b, 0, 4) == Some(date.0)) by {
        lemma_four_digits(b, 0);
    }
    assert(field_value(b, 5, 2) == Some(date.1)) by {
        lemma_two_digits(b, 5);
    }
    assert(field_value(b, 8, 2) == Some(date.2)) by {
        lemma_two_digits(b, 8);
    }
}

proof fn lemma_clock_fields(rem: int, b: Seq<u8>)
    requires
        0 <= rem < 86400000,
        b.len() >= 23,
        forall|i: int| 11 <= i < 23 ==> #[trigger] b[i] == clock_text(rem)[i - 11] as u8,
    ensures
        field_value(b, 11, 2) == Some(rem / 3600000),
        field_value(b, 14, 2) == Some(rem % 3600000 / 60000),
        field_value(b, 17, 2) == Some(rem % 60000 / 1000),
        b[19] == 46,
        is_digit(b[20]) && is_digit(b[21]) && is_digit(b[22]),
        100 * (b[20] - 48) + 10 * (b[21] - 48) + (b[22] - 48) == rem % 1000,
{
    lemma_clock_chars(rem);
    assert(b[11] == clock_text(rem)[0] as u8 && b[12] == clock_text(rem)[1] as u8);
    assert(b[14] == clock_text(rem)[3] as u8 && b[15] == clock_text(rem)[4] as u8);
    assert(b[17] == clock_text(rem)[6] as u8 && b[18] == clock_text(rem)[7] as u8);
    lemma_two_digits(b, 11);
    lemma_two_digits(b, 14);
    lemma_two_digits(b, 17);
}

/// The fields of a stamp whose text is `date_text`, `T`, `clock_text` and `Z`.
proof fn lemma_stamp_fields(date: (int, int, int), rem: int, b: Seq<u8>)
    requires
        0 <= date.0 <= 9999,
        0 <= date.1 < 100,
        0 <= date.2 < 100,
        0 <= rem < 86400000,
        b == vstd::utf8::encode_utf8(date_text(date) + seq!['T'] + clock_text(rem) + seq!['Z']),
    ensures
        b.len() == 24,
        field_value(b, 0, 4) == Some(date.0),
        field_value(b, 5, 2) == Some(date.1),
        field_value(b, 8, 2) == Some(date.2),
        field_value(b, 11, 2) == Some(rem / 3600000),
        field_value(b, 14, 2) == Some(rem % 3600000 / 60000),
        field_value(b, 17, 2) == Some(rem % 60000 / 1000),
        b[19] == 46,
        is_digit(b[20]) && is_digit(b[21]) && is_digit(b[22]),
        100 * (b[20] - 48) + 10 * (b[21] - 48) + (b[22] - 48) == rem % 1000,
        b[23] == 90,
{
    assert(date_text(date).len() == 10 && vstd::utf8::is_ascii_chars(date_text(date))) by {
        lemma_date_chars(date);
    }
    assert(clock_text(rem).len() == 12 && vstd::utf8::is_ascii_chars(clock_text(rem))) by {
        lemma_clock_chars(rem);
    }
    lemma_stamp_bytes(date_text(date), clock_text(rem), b);
    lemma_date_fields(date, b);
    lemma_clock_fields(rem, b);
}

#[verifier::spinoff_prover]
proof fn lemma_day_parts(rem: int)
    requires
        0 <= rem < 86400000,
    ensures
        rem / 3600000 * 3600000 + rem % 3600000 / 60000 * 60000 + rem % 60000 / 1000 * 1000 + rem
            % 1000 == rem,
{
}

proof fn lemma_run_of_digits(b: Seq<u8>, i: int, e: int)
    requires
        0 <= i <= e <= b.len(),
        forall|k: int| i <= k < e ==> is_digit(#[trigger] b[k]),
        e < b.len() ==> !is_digit(b[e]),
    ensures
        digit_run(b, i) == e - i,
    decreases e - i,
{
    if i < e {
        lemma_run_of_digits(b, i + 1, e);
    }
}

/// What `iso_text` writes, `iso_millis` reads back, for every instant whose year
/// has four digits.
pub proof fn law_iso_round_trip(ms: int)
    requires
        0 <= civil(ms / 86400000).0 <= 9999,
    ensures
        iso_millis(vstd::utf8::encode_utf8(iso_text(ms))) == Some(ms),
{
    let z = ms / 86400000;
    let rem = ms % 86400000;
    let b = vstd::utf8::encode_utf8(iso_text(ms));
    law_civil_total(z);
    let date = civil(z);
    lemma_stamp_fields(date, rem, b);
    lemma_run_of_digits(b, 20, 23);
    assert(zone_start(b) == 23);
    assert(zone_value(b) == Some(0int));
    assert(fraction_millis(b) == rem % 1000);
    lemma_day_parts(rem);
    assert(date == (date.0, date.1, date.2));
    assert(iso_fields_ok(b));
    assert(iso_millis(b) == Some(
        z * 86400000 + rem / 3600000 * 3600000 + rem % 3600000 / 60000 * 60000 + rem % 60000 / 1000
            * 1000 + rem % 1000 - 0 * 60000,
    ));
}

proof fn lemma_field_of_prefix(b: Seq<u8>, tail: Seq<u8>, i: int, n: int)
    requires
        0 <= i,
        0 <= n,
        i + n <= b.len(),
    ensures
        field_value(b + tail, i, n) == field_value(b, i, n),
{
    assert((b + tail).subrange(i, i + n) =~= b.subrange(i, i + n));
}

proof fn lemma_run_of_prefix(b: Seq<u8>, tail: Seq<u8>, i: int)
    requires
        0 <= i <= b.len(),
        tail.len() > 0 ==> !is_digit(tail[0]),
    ensures
        digit_run(b + tail, i) == digit_run(b, i),
    decreases b.len() - i,
{
    if i < b.len() && is_digit(b[i]) {
        lemma_run_of_prefix(b, tail, i + 1);
    }
}

proof fn lemma_run_bound(b: Seq<u8>, i: int)
    requires
        0 <= i <= b.len(),
    ensures
        0 <= digit_run(b, i) <= b.len() - i,
        forall|k: int| i <= k < i + digit_run(b, i) ==> is_digit(#[trigger] b[k]),
    decreases b.len() - i,
{
    if i < b.len() && is_digit(b[i]) {
        lemma_run_bound(b, i + 1);
    }
}

proof fn lemma_zone_appended(b: Seq<u8>, tail: Seq<u8>)
    requires
        iso_fields_ok(b),
        zone_start(b) == b.len(),
        tail.len() > 0,
        !is_digit(tail[0]),
        tail[0] != 46,
    ensures
        iso_fields_ok(b + tail),
        zone_start(b + tail) == b.len(),
        fraction_millis(b + tail) == fraction_millis(b),
        iso_millis(b) is Some,
        zone_value(b + tail) matches Some(v) ==> iso_millis(b + tail) == Some(
            iso_millis(b)->0 - v * 60000,
        ),
{
    lemma_field_of_prefix(b, tail, 0, 4);
    lemma_field_of_prefix(b, tail, 5, 2);
    lemma_field_of_prefix(b, tail, 8, 2);
    lemma_field_of_prefix(b, tail, 11, 2);
    lemma_field_of_prefix(b, tail, 14, 2);
    lemma_field_of_prefix(b, tail, 17, 2);
    if b.len() > 19 {
        assert((b + tail)[19] == b[19]);
        lemma_run_of_prefix(b, tail, 20);
        lemma_run_bound(b, 20);
        assert forall|k: int| 0 <= k < 3 implies #[trigger] fraction_digit(b + tail, k)
            == fraction_digit(b, k) by {
            if k < digit_run(b, 20) {
                assert((b + tail)[20 + k] == b[20 + k]);
            }
        }
    } else {
        assert((b + tail)[19] == tail[0]);
    }
}

/// A stamp without a zone is in UTC: `Z` behind it changes nothing, and a zone
/// that is `hh:mm` or `hhmm` ahead of (behind) UTC moves the instant back (forth) by
/// as much.
#[verifier::spinoff_prover]
pub proof fn law_zone_shift(b: Seq<u8>, h1: u8, h2: u8, m1: u8, m2: u8)
    requires
        iso_fields_ok(b),
        zone_start(b) == b.len(),
        is_digit(h1) && is_digit(h2) && is_digit(m1) && is_digit(m2),
    ensures
        ({
            let shift = ((10 * (h1 - 48) + (h2 - 48)) * 60 + 10 * (m1 - 48) + (m2 - 48)) * 60000;
            &&& iso_millis(b) is Some
            &&& iso_millis(b + seq![90u8]) == iso_millis(b)
            &&& iso_millis(b + seq![43u8, h1, h2, 58u8, m1, m2]) == Some(iso_millis(b)->0 - shift)
            &&& iso_millis(b + seq![45u8, h1, h2, 58u8, m1, m2]) == Some(iso_millis(b)->0 + shift)
            &&& iso_millis(b + seq![43u8, h1, h2, m1, m2]) == Some(iso_millis(b)->0 - shift)
            &&& iso_millis(b + seq![45u8, h1, h2, m1, m2]) == Some(iso_millis(b)->0 + shift)
        }),
{
    lemma_zone_utc(b);
    lemma_zone_with_colon(b, 43, h1, h2, m1, m2);
    lemma_zone_with_colon(b, 45, h1, h2, m1, m2);
    lemma_zone_without_colon(b, 43, h1, h2, m1, m2);
    lemma_zone_without_colon(b, 45, h1, h2, m1, m2);
}

proof fn lemma_zone_utc(b: Seq<u8>)
    requires
        iso_fields_ok(b),
        zone_start(b) == b.len(),
    ensures
        iso_millis(b) is Some,
        iso_millis(b + seq![90u8]) == iso_millis(b),
{
    let z = b + seq![90u8];
    lemma_zone_appended(b, seq![90u8]);
    assert(z[b.len() as int] == 90);
    assert(zone_value(z) == Some(0int));
}

/// The minutes of a signed zone.
spec fn signed_minutes(sign: u8, h1: u8, h2: u8, m1: u8, m2: u8) -> int {
    let v = (10 * (h1 - 48) + (h2 - 48)) * 60 + 10 * (m1 - 48) + (m2 - 48);
    if sign == 45 {
        -v
    } else {
        v
    }
}

proof fn lemma_zone_with_colon(b: Seq<u8>, sign: u8, h1: u8, h2: u8, m1: u8, m2: u8)
    requires
        iso_fields_ok(b),
        zone_start(b) == b.len(),
        sign == 43 || sign == 45,
        is_digit(h1) && is_digit(h2) && is_digit(m1) && is_digit(m2),
    ensures
        iso_millis(b) is Some,
        iso_millis(b + seq![sign, h1, h2, 58u8, m1, m2]) == Some(
            iso_millis(b)->0 - signed_minutes(sign, h1, h2, m1, m2) * 60000,
        ),
{
    let p = b + seq![sign, h1, h2, 58u8, m1, m2];
    let n = b.len() as int;
    lemma_zone_appended(b, seq![sign, h1, h2, 58u8, m1, m2]);
    assert(p[n] == sign && p[n + 1] == h1 && p[n + 2] == h2 && p[n + 3] == 58);
    assert(p[n + 4] == m1 && p[n + 5] == m2);
    lemma_two_digits(p, n + 1);
    lemma_two_digits(p, n + 4);
    assert(zone_value(p) == Some(signed_minutes(sign, h1, h2, m1, m2)));
}

proof fn lemma_zone_without_colon(b: Seq<u8>, sign: u8, h1: u8, h2: u8, m1: u8, m2: u8)
    requires
        iso_fields_ok(b),
        zone_start(b) == b.len(),
        sign == 43 || sign == 45,
        is_digit(h1) && is_digit(h2) && is_digit(m1) && is_digit(m2),
    ensures
        iso_millis(b + seq![sign, h1, h2, m1, m2]) == Some(
            iso_millis(b)->0 - signed_minutes(sign, h1, h2, m1, m2) * 60000,
        ),
{
    let p = b + seq![sign, h1, h2, m1, m2];
    let n = b.len() as int;
    lemma_zone_appended(b, seq![sign, h1, h2, m1, m2]);
    assert(p[n] == sign && p[n + 1] == h1 && p[n + 2] == h2 && p[n + 3] == m1 && p[n + 4] == m2);
    lemma_two_digits(p, n + 1);
    lemma_two_digits(p, n + 3);
    assert(zone_value(p) == Some(signed_minutes(sign, h1, h2, m1, m2)));
}

/// Only the first three digits of a fraction count: a stamp with more of them
/// names the same instant as the one with three.
pub proof fn law_fraction_cut(b: Seq<u8>, fraction: Seq<u8>)
    requires
        iso_fields_ok(b),
        b.len() == 19,
        fraction.len() >= 3,
        forall|k: int| 0 <= k < fraction.len() ==> is_digit(#[trigger] fraction[k]),
    ensures
        iso_millis(b + seq![46u8] + fraction + seq![90u8]) is Some,
        iso_millis(b + seq![46u8] + fraction + seq![90u8]) == iso_millis(
            b + seq![46u8] + fraction.take(3) + seq![90u8],
        ),
{
    lemma_fraction_of(b, fraction);
    lemma_fraction_of(b, fraction.take(3));
}

proof fn lemma_fraction_of(b: Seq<u8>, fraction: Seq<u8>)
    requires
        iso_fields_ok(b),
        b.len() == 19,
        fraction.len() >= 3,
        forall|k: int| 0 <= k < fraction.len() ==> is_digit(#[trigger] fraction[k]),
    ensures
        iso_millis(b + seq![46u8] + fraction + seq![90u8]) == Some(
            iso_millis(b)->0 + 100 * (fraction[0] - 48) + 10 * (fraction[1] - 48) + (fraction[2]
                - 48),
        ),
{
    let t = seq![46u8] + fraction + seq![90u8];
    let s = b + seq![46u8] + fraction + seq![90u8];
    assert(s =~= b + t);
    lemma_field_of_prefix(b, t, 0, 4);
    lemma_field_of_prefix(b, t, 5, 2);
    lemma_field_of_prefix(b, t, 8, 2);
    lemma_field_of_prefix(b, t, 11, 2);
    lemma_field_of_prefix(b, t, 14, 2);
    lemma_field_of_prefix(b, t, 17, 2);
    let e = 20 + fraction.len() as int;
    assert forall|k: int| 20 <= k < e implies is_digit(#[trigger] s[k]) by {
        assert(s[k] == fraction[k - 20]);
    }
    assert(s[e] == 90);
    lemma_run_of_digits(s, 20, e);
    assert(s[19] == 46);
    assert(s[20] == fraction[0] && s[21] == fraction[1] && s[22] == fraction[2]);
    assert(zone_start(b) == 19);
    assert(fraction_millis(b) == 0);
}

/// Whether a stamp is fresh at `now`: not ahead of it, and less than five minutes
/// old.
pub open spec fn online_at(b: Seq<u8>, now: int) -> bool {
    iso_millis(b) matches Some(ts) && ts <= now && now - ts < 300000
}

/// Presence at a given instant: a friend counts as online while the last sign of
/// life is less than five minutes old.
pub fn is_online_at(last_seen: &str, now: i64) -> (r: bool)
    ensures
        r == online_at(vstd::utf8::encode_utf8(last_seen@), now as int),
{
    match parse_iso_millis(last_seen) {
        Some(ts) => ts <= now && now < ts + 5 * 60_000,
        None => false,
    }
}

/// The system clock of the standard library.
#[verifier::external_type_specification]
#[verifier::external_body]
pub struct ExSystemTime(std::time::SystemTime);

/// `std::time::SystemTime::now`. Nothing is claimed of the instant.
#[verifier::external_body]
fn system_now() -> std::time::SystemTime {
    std::time::SystemTime::now()
}

/// The time from the Unix epoch to an instant; `None` where the instant lies before
/// the epoch.
pub uninterp spec fn after_epoch(t: std::time::SystemTime) -> Option<std::time::Duration>;

/// The whole milliseconds of a length of time.
pub uninterp spec fn duration_millis(d: std::time::Duration) -> u128;

/// `std::time::SystemTime::duration_since` the Unix epoch; `None` where the instant
/// lies before it. It depends on the instant alone, and `after_epoch` names it.
#[verifier::external_body]
fn since_epoch(t: std::time::SystemTime) -> (r: Option<std::time::Duration>)
    ensures
        r == after_epoch(t),
{
    t.duration_since(std::time::UNIX_EPOCH).ok()
}

/// `std::time::Duration::as_millis`: the whole milliseconds of the length. They
/// depend on the length alone, and `duration_millis` names them.
#[verifier::external_body]
fn whole_millis(d: std::time::Duration) -> (r: u128)
    ensures
        r == duration_millis(d),
{
    d.as_millis()
}

/// Unix epoch milliseconds, given the milliseconds since the epoch, if it is past:
/// their 64 lowest bits, and zero before the epoch.
pub open spec fn millis_or_zero(elapsed: Option<u128>) -> i64 {
    match elapsed {
        Some(ms) => ms as i64,
        None => 0,
    }
}

/// Unix epoch milliseconds of an instant, zero where it lies before the epoch.
pub open spec fn instant_millis(t: std::time::SystemTime) -> i64 {
    millis_or_zero(
        match after_epoch(t) {
            Some(d) => Some(duration_millis(d)),
            None => None,
        },
    )
}

/// Unix epoch milliseconds of a clock that stands `elapsed` milliseconds after the
/// epoch, or before it.
pub fn epoch_millis(elapsed: Option<u128>) -> (r: i64)
    ensures
        r == millis_or_zero(elapsed),
{
    match elapsed {
        Some(ms) => #[verifier::truncate] (ms as i64),
        None => 0,
    }
}

/// Unix epoch milliseconds of the system clock, zero where it stands before the
/// epoch: those of the instant that the clock reads, which the clock decides.
pub fn now_millis() -> (r: i64)
    ensures
        exists|t: std::time::SystemTime| r == #[trigger] instant_millis(t),
{
    let t: std::time::SystemTime = system_now();
    let elapsed: Option<u128> = match since_epoch(t) {
        Some(d) => Some(whole_millis(d)),
        None => None,
    };
    let r: i64 = epoch_millis(elapsed);
    assert(r == instant_millis(t));
    r
}

/// The current UTC time as `YYYY-MM-DDTHH:MM:SS.mmmZ`: that of the instant that the
/// system clock reads.
pub fn now_iso() -> (r: String)
    ensures
        exists|t: std::time::SystemTime| r@ == iso_text(#[trigger] instant_millis(t) as int),
{
    iso_from_millis(now_millis())
}

/// Presence: a friend counts as online if `last_seen` is less than five minutes
/// old by the system clock.
pub fn is_online(last_seen: &str) -> (r: bool)
    ensures
        exists|t: std::time::SystemTime|
            r == online_at(
                vstd::utf8::encode_utf8(last_seen@),
                #[trigger] instant_millis(t) as int,
            ),
{
    is_online_at(last_seen, now_millis())
}

/// The calendar is the Gregorian one: the months have their lengths, a year has 366
/// days where it is divisible by four but not by a hundred, or by four hundred, and
/// 365 otherwise, and four hundred years have 146097 days.
#[verifier::spinoff_prover]
pub proof fn law_gregorian(y: int, m: int, d: int)
    requires
        1 <= m <= 12,
    ensures
        days_of((1970, 1, 1)) == 0,
        days_of((2000, 1, 1)) == 10957,
        days_of((y, m, d + 1)) == days_of((y, m, d)) + 1,
        m == 1 || m == 3 || m == 5 || m == 7 || m == 8 || m == 10 ==> days_of((y, m + 1, 1))
            == days_of((y, m, 1)) + 31,
        m == 4 || m == 6 || m == 9 || m == 11 ==> days_of((y, m + 1, 1)) == days_of((y, m, 1)) + 30,
        days_of((y + 1, 1, 1)) == days_of((y, 12, 1)) + 31,
        days_of((y, 3, 1)) - days_of((y, 2, 1)) == (if y % 4 == 0
            && (y % 100 != 0 || y % 400 == 0) {
            29int
        } else {
            28int
        }),
        days_of((y + 400, m, d)) == days_of((y, m, d)) + 146097,
{
    lemma_march_leap(y - 1);
    lemma_era_shift(1, y);
    lemma_era_shift(1, y - 1);
    assert(m == 1 || m == 2 || m == 3 || m == 4 || m == 5 || m == 6 || m == 7 || m == 8 || m == 9
        || m == 10 || m == 11 || m == 12);
}

/// A day count and the date that is computed for it belong together, and the date is
/// one of the calendar.
pub proof fn law_civil_date(z: i64, r: (i64, u32, u32))
    requires
        call_ensures(civil_from_days, (z,), r),
    ensures
        days_of((r.0 as int, r.1 as int, r.2 as int)) == z,
        1 <= r.1 <= 12,
        1 <= r.2 <= 31,
        r.1 == 2 ==> r.2 <= 29,
        r.1 == 2 && r.2 == 29 ==> r.0 as int % 4 == 0 && (r.0 as int % 100 != 0 || r.0 as int % 400
            == 0),
        r.1 == 4 || r.1 == 6 || r.1 == 9 || r.1 == 11 ==> r.2 <= 30,
{
}

/// What is written is read back as the same instant, wherever the year has four
/// digits.
pub proof fn law_stamp_round_trip(ms: i64, written: String, s: &str, r: Option<i64>)
    requires
        call_ensures(iso_from_millis, (ms,), written),
        s@ == written@,
        call_ensures(parse_iso_millis, (s,), r),
        0 <= civil(ms as int / 86400000).0 <= 9999,
    ensures
        r == Some(ms),
{
    law_iso_round_trip(ms as int);
}

/// A written stamp has the year, the month, the day, the hour, the minute, the second
/// and the milliseconds in this order, in decimal digits, with the usual signs between
/// them and `Z` at the end.
pub proof fn law_stamp_layout(ms: i64, s: String, y: int, m: int, d: int)
    requires
        call_ensures(iso_from_millis, (ms,), s),
        0 <= y <= 9999,
        valid_date((y, m, d)),
        days_of((y, m, d)) == ms as int / 86400000,
    ensures
        s@.len() == 24,
        s@[4] == '-' && s@[7] == '-' && s@[10] == 'T' && s@[13] == ':' && s@[16] == ':',
        s@[19] == '.' && s@[23] == 'Z',
        1000 * worth(s@[0]) + 100 * worth(s@[1]) + 10 * worth(s@[2]) + worth(s@[3]) == y,
        10 * worth(s@[5]) + worth(s@[6]) == m,
        10 * worth(s@[8]) + worth(s@[9]) == d,
        10 * worth(s@[11]) + worth(s@[12]) == ms as int % 86400000 / 3600000,
        10 * worth(s@[14]) + worth(s@[15]) == ms as int % 86400000 % 3600000 / 60000,
        10 * worth(s@[17]) + worth(s@[18]) == ms as int % 86400000 % 60000 / 1000,
        100 * worth(s@[20]) + 10 * worth(s@[21]) + worth(s@[22]) == ms as int % 86400000 % 1000,
{
    law_civil_inverts_days((y, m, d));
    let rem = ms as int % 86400000;
    let t = date_text((y, m, d));
    let c = clock_text(rem);
    lemma_date_chars((y, m, d));
    lemma_clock_chars(rem);
    lemma_four_parts(y);
    assert(s@ == t + seq!['T'] + c + seq!['Z']);
    assert(s@[0] == t[0] && s@[1] == t[1] && s@[2] == t[2] && s@[3] == t[3]);
    assert(s@[4] == t[4] && s@[5] == t[5] && s@[6] == t[6] && s@[7] == t[7]);
    assert(s@[8] == t[8] && s@[9] == t[9]);
    assert(s@[11] == c[0] && s@[12] == c[1] && s@[13] == c[2] && s@[14] == c[3]);
    assert(s@[15] == c[4] && s@[16] == c[5] && s@[17] == c[6] && s@[18] == c[7]);
    assert(s@[19] == c[8] && s@[20] == c[9] && s@[21] == c[10] && s@[22] == c[11]);
    lemma_digit_parts(rem / 3600000, rem % 3600000 / 60000, rem % 60000 / 1000, rem % 1000);
}

/// What a decimal digit is worth.
pub open spec fn worth(c: char) -> int {
    c as int - '0' as int
}

#[verifier::spinoff_prover]
proof fn lemma_digit_parts(h: int, mi: int, se: int, fr: int)
    requires
        0 <= h < 24,
        0 <= mi < 60,
        0 <= se < 60,
        0 <= fr < 1000,
    ensures
        0 <= h / 10 < 10 && 10 * (h / 10) + h % 10 == h,
        0 <= mi / 10 < 10 && 10 * (mi / 10) + mi % 10 == mi,
        0 <= se / 10 < 10 && 10 * (se / 10) + se % 10 == se,
        0 <= fr / 100 < 10 && 100 * (fr / 100) + 10 * (fr / 10 % 10) + fr % 10 == fr,
{
    let tens = fr / 10;
    vstd::arithmetic::div_mod::lemma_div_denominator(fr, 10, 10);
    assert(tens == 10 * (tens / 10) + tens % 10);
}

/// A stamp of nineteen characters with digits in the places of its fields is read by
/// these: the year from the first four, month, day, hour, minute and second from two
/// each, as an instant in UTC.
pub proof fn law_stamp_read(s: &str, r: Option<i64>, b: Seq<u8>)
    requires
        call_ensures(parse_iso_millis, (s,), r),
        b == vstd::utf8::encode_utf8(s@),
        b.len() == 19,
        forall|i: int|
            0 <= i < 19 && i != 4 && i != 7 && i != 10 && i != 13 && i != 16 ==> 48 <= (
            #[trigger] b[i]) <= 57,
    ensures
        ({
            let y = 1000 * (b[0] - 48) + 100 * (b[1] - 48) + 10 * (b[2] - 48) + (b[3] - 48);
            let m = 10 * (b[5] - 48) + (b[6] - 48);
            let d = 10 * (b[8] - 48) + (b[9] - 48);
            let hour = 10 * (b[11] - 48) + (b[12] - 48);
            let minute = 10 * (b[14] - 48) + (b[15] - 48);
            let second = 10 * (b[17] - 48) + (b[18] - 48);
            r matches Some(v) && v == ((days_of((y, m, d)) * 24 + hour) * 60 + minute) * 60000
                + second * 1000
        }),
{
    lemma_four_digits(b, 0);
    lemma_two_digits(b, 5);
    lemma_two_digits(b, 8);
    lemma_two_digits(b, 11);
    lemma_two_digits(b, 14);
    lemma_two_digits(b, 17);
    assert(zone_start(b) == 19);
    assert(fraction_millis(b) == 0);
}

/// A stamp is not read where it is too short or a field holds no number.
pub proof fn law_stamp_refused(s: &str, r: Option<i64>, b: Seq<u8>)
    requires
        call_ensures(parse_iso_millis, (s,), r),
        b == vstd::utf8::encode_utf8(s@),
    ensures
        b.len() < 19 ==> r is None,
        b.len() >= 19 && !(48 <= b[3] <= 57) ==> r is None,
        b.len() >= 19 && !(48 <= b[6] <= 57) ==> r is None,
        b.len() >= 19 && !(48 <= b[9] <= 57) ==> r is None,
        b.len() >= 19 && !(48 <= b[12] <= 57) ==> r is None,
        b.len() >= 19 && !(48 <= b[15] <= 57) ==> r is None,
        b.len() >= 19 && !(48 <= b[18] <= 57) ==> r is None,
{
    if b.len() >= 19 {
        lemma_last_digit(b, 0, 4);
        lemma_last_digit(b, 5, 2);
        lemma_last_digit(b, 8, 2);
        lemma_last_digit(b, 11, 2);
        lemma_last_digit(b, 14, 2);
        lemma_last_digit(b, 17, 2);
    }
}

proof fn lemma_last_digit(b: Seq<u8>, i: int, n: int)
    requires
        0 <= i,
        1 < n,
        i + n <= b.len(),
    ensures
        field_value(b, i, n) is Some ==> 48 <= b[i + n - 1] <= 57,
{
    let s = b.subrange(i, i + n);
    assert(s.last() == b[i + n - 1]);
    assert(s.skip(1).last() == s.last());
}

/// Somebody is online exactly while the instant of the last sign of life has come and
/// lies less than five minutes back; a stamp that cannot be read is none.
pub proof fn law_online_window(last_seen: &str, now: i64, r: bool, ts: Option<i64>)
    requires
        call_ensures(is_online_at, (last_seen, now), r),
        call_ensures(parse_iso_millis, (last_seen,), ts),
    ensures
        r <==> (ts matches Some(t) && 0 <= now - t < 5 * 60 * 1000),
{
}

/// The clock's milliseconds since the epoch are taken as they are, and none before
/// it.
pub proof fn law_epoch_millis(elapsed: Option<u128>, r: i64)
    requires
        call_ensures(epoch_millis, (elapsed,), r),
    ensures
        elapsed is None ==> r == 0,
        elapsed matches Some(ms) ==> (ms <= i64::MAX ==> r == ms),
{
}

/// What the clock says now is one instant, written as any other.
pub proof fn law_now(s: String, last_seen: &str, r: bool)
    requires
        call_ensures(now_iso, (), s),
        call_ensures(is_online, (last_seen,), r),
    ensures
        exists|t: std::time::SystemTime| s@ == iso_text(#[trigger] instant_millis(t) as int),
        iso_millis(vstd::utf8::encode_utf8(last_seen@)) is None ==> !r,
        r ==> exists|t: std::time::SystemTime|
            0 <= #[trigger] instant_millis(t) - iso_millis(vstd::utf8::encode_utf8(last_seen@))->0
                < 300000,
{
}

/// A zone of whole hours, ahead of UTC or behind it, moves the instant by so many
/// hours.
pub proof fn law_zone_hours(b: Seq<u8>, sign: u8, h1: u8, h2: u8)
    requires
        iso_fields_ok(b),
        zone_start(b) == b.len(),
        sign == 43 || sign == 45,
        is_digit(h1) && is_digit(h2),
    ensures
        iso_millis(b) is Some,
        iso_millis(b + seq![sign, h1, h2]) == Some(
            iso_millis(b)->0 - (if sign == 45 {
                -(10 * (h1 - 48) + (h2 - 48))
            } else {
                10 * (h1 - 48) + (h2 - 48)
            }) * 3600000,
        ),
{
    let p = b + seq![sign, h1, h2];
    let n = b.len() as int;
    lemma_zone_appended(b, seq![sign, h1, h2]);
    assert(p[n] == sign && p[n + 1] == h1 && p[n + 2] == h2);
    lemma_two_digits(p, n + 1);
    assert(zone_minutes_start(p) == n + 3);
    let h = 10 * (h1 - 48) + (h2 - 48);
    assert(zone_value(p) == Some(
        if sign == 45 {
            -(h * 60 + 0)
        } else {
            h * 60 + 0
        },
    ));
}

/// A zone that breaks off before its hours, or begins with anything but `Z` or a sign,
/// is refused.
pub proof fn law_zone_refused(b: Seq<u8>, tail: Seq<u8>)
    requires
        iso_fields_ok(b),
        zone_start(b) == b.len(),
        tail.len() > 0,
        !is_digit(tail[0]),
        tail[0] != 46,
    ensures
        tail[0] != 90 && ((tail[0] != 43 && tail[0] != 45) || tail.len() < 3) ==> iso_millis(
            b + tail,
        ) is None,
{
    lemma_zone_appended(b, tail);
    assert((b + tail)[b.len() as int] == tail[0]);
}

/// A fraction of one or two digits is tenths, or tenths and hundredths, of a second.
pub proof fn law_short_fraction(b: Seq<u8>, fraction: Seq<u8>)
    requires
        iso_fields_ok(b),
        b.len() == 19,
        1 <= fraction.len() <= 2,
        forall|k: int| 0 <= k < fraction.len() ==> is_digit(#[trigger] fraction[k]),
    ensures
        iso_millis(b) is Some,
        iso_millis(b + (seq![46u8] + fraction + seq![90u8])) == Some(
            iso_millis(b)->0 + 100 * (fraction[0] - 48) + (if fraction.len() == 2 {
                10 * (fraction[1] - 48)
            } else {
                0int
            }),
        ),
{
    let t = seq![46u8] + fraction + seq![90u8];
    let s = b + t;
    lemma_field_of_prefix(b, t, 0, 4);
    lemma_field_of_prefix(b, t, 5, 2);
    lemma_field_of_prefix(b, t, 8, 2);
    lemma_field_of_prefix(b, t, 11, 2);
    lemma_field_of_prefix(b, t, 14, 2);
    lemma_field_of_prefix(b, t, 17, 2);
    let e = 20 + fraction.len() as int;
    assert forall|k: int| 20 <= k < e implies is_digit(#[trigger] s[k]) by {
        assert(s[k] == fraction[k - 20]);
    }
    assert(s[e] == 90);
    lemma_run_of_digits(s, 20, e);
    assert(s[19] == 46);
    assert(s[20] == fraction[0]);
    assert(fraction.len() == 2 ==> s[21] == fraction[1]);
    assert(zone_start(b) == 19);
    assert(fraction_millis(b) == 0);
    assert(zone_value(s) == Some(0int));
}

/// A number may have a sign: with a plus it reads as with a zero in its place.
pub proof fn law_signed_field(b: Seq<u8>, i: int)
    requires
        0 <= i,
        i + 2 <= b.len(),
        b[i] == 43 || b[i] == 45,
        is_digit(b[i + 1]),
    ensures
        b[i] == 43 ==> field_value(b, i, 2) == Some(b[i + 1] - 48),
        b[i] == 45 ==> field_value(b, i, 2) == Some(-(b[i + 1] - 48)),
{
    let s = b.subrange(i, i + 2);
    assert(s.skip(1) =~= seq![b[i + 1]]);
    assert(s.skip(1).last() == b[i + 1]);
    reveal_with_fuel(digits_value, 2);
}

} // verus!
