//! Gregorian calendar arithmetic and the timestamped file-name stem.

use vstd::prelude::*;
use crate::text::{all_digits, decimal, digit_char, is_digit, lemma_decimal, lemma_digit_char, push_decimal};

verus! {

/// The Gregorian leap-year rule.
pub open spec fn spec_is_leap(y: int) -> bool {
    (y % 4 == 0 && y % 100 != 0) || y % 400 == 0
}

/// Whether `y` is a leap year: divisible by 4 and not by 100, or by 400.
pub fn is_leap(y: i64) -> (r: bool)
    ensures
        r == spec_is_leap(y as int),
{
    (y % 4 == 0 && y % 100 != 0) || y % 400 == 0
}

/// Number of days in year `y`.
pub open spec fn year_len(y: int) -> nat {
    if spec_is_leap(y) {
        366
    } else {
        365
    }
}

/// Number of days in month `m` (1 to 12) of year `y`.
pub open spec fn month_len(y: int, m: int) -> nat {
    if m == 2 {
        if spec_is_leap(y) {
            29
        } else {
            28
        }
    } else if m == 4 || m == 6 || m == 9 || m == 11 {
        30
    } else {
        31
    }
}

/// Days from 1970-01-01 to the first day of year `y` (for `y >= 1970`).
pub open spec fn days_before_year(y: int) -> nat
    decreases y - 1970,
{
    if y <= 1970 {
        0
    } else {
        days_before_year(y - 1) + year_len(y - 1)
    }
}

/// Days from the first of January to the first day of month `m` in year `y`.
pub open spec fn days_before_month(y: int, m: int) -> nat
    decreases m,
{
    if m <= 1 {
        0
    } else {
        days_before_month(y, m - 1) + month_len(y, m - 1)
    }
}

/// A calendar date no earlier than 1970-01-01.
pub open spec fn valid_date(y: int, m: int, d: int) -> bool {
    1970 <= y && 1 <= m <= 12 && 1 <= d <= month_len(y, m)
}

/// Days elapsed from 1970-01-01 to the date `y-m-d`.
pub open spec fn days_from_civil(y: int, m: int, d: int) -> int {
    days_before_year(y) + days_before_month(y, m) + d - 1
}

/// The date that lies `days` days after 1970-01-01.
pub open spec fn civil_of(days: int) -> (int, int, int) {
    choose|t: (int, int, int)| valid_date(t.0, t.1, t.2) && days_from_civil(t.0, t.1, t.2) == days
}

/// The twelve months fill the year.
pub proof fn lemma_months_fill_year(y: int)
    ensures
        days_before_month(y, 13) == year_len(y),
{
    reveal_with_fuel(days_before_month, 13);
}

proof fn lemma_days_before_month_mono(y: int, m1: int, m2: int)
    requires
        1 <= m1 < m2,
    ensures
        days_before_month(y, m1) + month_len(y, m1) <= days_before_month(y, m2),
    decreases m2,
{
    if m2 > m1 + 1 {
        lemma_days_before_month_mono(y, m1, m2 - 1);
    }
}

proof fn lemma_days_before_year_mono(y1: int, y2: int)
    requires
        1970 <= y1 < y2,
    ensures
        days_before_year(y1) + year_len(y1) <= days_before_year(y2),
    decreases y2,
{
    if y2 > y1 + 1 {
        lemma_days_before_year_mono(y1, y2 - 1);
    }
}

proof fn lemma_days_before_year_lower(y: int)
    requires
        1970 <= y,
    ensures
        days_before_year(y) >= 365 * (y - 1970),
    decreases y,
{
    if y > 1970 {
        lemma_days_before_year_lower(y - 1);
    }
}

/// Within its year, a valid date's offset is below the year's length.
proof fn lemma_day_of_year_bound(y: int, m: int, d: int)
    requires
        valid_date(y, m, d),
    ensures
        days_before_month(y, m) + d - 1 < year_len(y),
{
    lemma_months_fill_year(y);
    lemma_days_before_month_mono(y, m, 13);
}

/// Distinct valid dates have distinct day counts: the count determines the date.
pub proof fn lemma_civil_unique(a: (int, int, int), b: (int, int, int))
    requires
        valid_date(a.0, a.1, a.2),
        valid_date(b.0, b.1, b.2),
        days_from_civil(a.0, a.1, a.2) == days_from_civil(b.0, b.1, b.2),
    ensures
        a == b,
{
    lemma_day_of_year_bound(a.0, a.1, a.2);
    lemma_day_of_year_bound(b.0, b.1, b.2);
    if a.0 < b.0 {
        lemma_days_before_year_mono(a.0, b.0);
    } else if b.0 < a.0 {
        lemma_days_before_year_mono(b.0, a.0);
    } else if a.1 < b.1 {
        lemma_days_before_month_mono(a.0, a.1, b.1);
    } else if b.1 < a.1 {
        lemma_days_before_month_mono(a.0, b.1, a.1);
    }
}

/// Converting a valid date to a day count and back gives the same date.
pub proof fn lemma_civil_roundtrip(y: int, m: int, d: int)
    requires
        valid_date(y, m, d),
    ensures
        civil_of(days_from_civil(y, m, d)) == (y, m, d),
{
    let n = days_from_civil(y, m, d);
    let w = (y, m, d);
    assert(valid_date(w.0, w.1, w.2) && days_from_civil(w.0, w.1, w.2) == n);
    let c = civil_of(n);
    lemma_civil_unique(c, w);
}

fn month_length(leap: bool, m: u64) -> (r: u64)
    requires
        1 <= m <= 12,
    ensures
        forall|y: int| spec_is_leap(y) == leap ==> r == month_len(y, m as int),
{
    if m == 2 {
        if leap {
            29
        } else {
            28
        }
    } else if m == 4 || m == 6 || m == 9 || m == 11 {
        30
    } else {
        31
    }
}

/// The calendar date `days` days after 1970-01-01, as `(year, month, day)`.
pub fn civil_from_days(days: u64) -> (r: (i64, u64, u64))
    ensures
        valid_date(r.0 as int, r.1 as int, r.2 as int),
        days_from_civil(r.0 as int, r.1 as int, r.2 as int) == days,
        civil_of(days as int) == (r.0 as int, r.1 as int, r.2 as int),
{
    let mut y: i64 = 1970;
    let mut rem: u64 = days;
    loop
        invariant
            1970 <= y,
            rem + days_before_year(y as int) == days,
        ensures
            1970 <= y,
            rem < year_len(y as int),
            rem + days_before_year(y as int) == days,
        decreases rem,
    {
        let ylen: u64 = if is_leap(y) {
            366
        } else {
            365
        };
        if rem < ylen {
            break;
        }
        proof {
            lemma_days_before_year_lower(y as int);
        }
        rem = rem - ylen;
        y = y + 1;
    }
    let leap = is_leap(y);
    let ghost rem_year = rem;
    proof {
        lemma_months_fill_year(y as int);
    }
    let mut m: u64 = 1;
    loop
        invariant
            1 <= m <= 12,
            rem_year < year_len(y as int),
            leap == spec_is_leap(y as int),
            rem + days_before_month(y as int, m as int) == rem_year,
            days_before_month(y as int, 13) == year_len(y as int),
        ensures
            1 <= m <= 12,
            rem + days_before_month(y as int, m as int) == rem_year,
            rem < month_len(y as int, m as int),
        decreases 12 - m,
    {
        let ml = month_length(leap, m);
        if m == 12 || rem < ml {
            break;
        }
        rem = rem - ml;
        m = m + 1;
    }
    let r = (y, m, rem + 1);
    proof {
        let t = (y as int, m as int, (rem + 1) as int);
        assert(valid_date(t.0, t.1, t.2) && days_from_civil(t.0, t.1, t.2) == days);
        lemma_civil_unique(civil_of(days as int), t);
    }
    r
}

/// Every day count from 1970-01-01 on names some valid date.
pub proof fn lemma_civil_exists(n: nat)
    ensures
        exists|t: (int, int, int)| valid_date(t.0, t.1, t.2) && days_from_civil(t.0, t.1, t.2) == n,
    decreases n,
{
    if n == 0 {
        let t = (1970int, 1int, 1int);
        assert(valid_date(t.0, t.1, t.2) && days_from_civil(t.0, t.1, t.2) == 0);
    } else {
        lemma_civil_exists((n - 1) as nat);
        let p = choose|t: (int, int, int)|
            valid_date(t.0, t.1, t.2) && days_from_civil(t.0, t.1, t.2) == n - 1;
        let (y, m, d) = p;
        if d < month_len(y, m) {
            let t = (y, m, d + 1);
            assert(valid_date(t.0, t.1, t.2) && days_from_civil(t.0, t.1, t.2) == n);
        } else if m < 12 {
            let t = (y, m + 1, 1int);
            assert(days_before_month(y, m + 1) == days_before_month(y, m) + month_len(y, m));
            assert(valid_date(t.0, t.1, t.2) && days_from_civil(t.0, t.1, t.2) == n);
        } else {
            let t = (y + 1, 1int, 1int);
            lemma_months_fill_year(y);
            assert(days_before_year(y + 1) == days_before_year(y) + year_len(y));
            assert(valid_date(t.0, t.1, t.2) && days_from_civil(t.0, t.1, t.2) == n);
        }
    }
}

/// The date of a day count is valid and has that count.
pub proof fn lemma_civil_of(n: nat)
    ensures
        valid_date(civil_of(n as int).0, civil_of(n as int).1, civil_of(n as int).2),
        days_from_civil(civil_of(n as int).0, civil_of(n as int).1, civil_of(n as int).2) == n,
{
    lemma_civil_exists(n);
}

/// `n` formatted with `{:02}`: at least two digits, zero-padded.
pub open spec fn pad2(n: nat) -> Seq<char> {
    if n < 10 {
        seq!['0'] + decimal(n)
    } else {
        decimal(n)
    }
}

/// The file-name stem for the time `secs` seconds after the Unix epoch:
/// `Screenshot_` then year, month and day, `_`, then the hour, the month
/// again, and the second of the minute (the pair after the hour is the month,
/// not the minute).
pub open spec fn stem_of(secs: nat) -> Seq<char> {
    let date = civil_of((secs / 86400) as int);
    let t = secs % 86400;
    "Screenshot_"@ + decimal(date.0 as nat) + pad2(date.1 as nat) + pad2(date.2 as nat) + "_"@
        + pad2(t / 3600) + pad2(date.1 as nat) + pad2(t % 60)
}

fn push_pad2(s: &mut String, n: u64)
    ensures
        final(s)@ == old(s)@ + pad2(n as nat),
{
    if n < 10 {
        s.append(digit_str_zero());
    }
    push_decimal(s, n);
    assert(s@ =~= old(s)@ + pad2(n as nat));
}

fn digit_str_zero() -> (r: &'static str)
    ensures
        r@ == seq!['0'],
{
    proof {
        reveal_strlit("0");
    }
    "0"
}

/// The file-name stem for the time `secs` seconds after the Unix epoch.
pub fn stem_for_time(secs: u64) -> (r: String)
    ensures
        r@ == stem_of(secs as nat),
{
    let days = secs / 86400;
    let time = secs % 86400;
    let h = time / 3600;
    let sec = time % 60;
    let (y, m, d) = civil_from_days(days);
    let mut r = String::from_str("Screenshot_");
    push_decimal(&mut r, y as u64);
    push_pad2(&mut r, m);
    push_pad2(&mut r, d);
    r.append("_");
    push_pad2(&mut r, h);
    push_pad2(&mut r, m);
    push_pad2(&mut r, sec);
    r
}

#[verifier::external_type_specification]
#[verifier::external_body]
pub struct ExSystemTime(std::time::SystemTime);

/// `SystemTime::now`. Nothing is stated of the reading: it is whatever the
/// system clock says.
#[verifier::external_body]
fn system_time_now() -> std::time::SystemTime {
    std::time::SystemTime::now()
}

/// `SystemTime::duration_since(UNIX_EPOCH)`, its error (a time before the
/// epoch) as `None`. Nothing is stated of the duration: the time is opaque here.
#[verifier::external_body]
fn since_unix_epoch(t: &std::time::SystemTime) -> Option<std::time::Duration> {
    t.duration_since(std::time::UNIX_EPOCH).ok()
}

/// `Duration::as_secs`: the whole seconds of the duration. Nothing is stated
/// of the value, the duration being opaque here.
#[verifier::external_body]
fn whole_seconds(d: &std::time::Duration) -> u64 {
    d.as_secs()
}

/// Whole seconds since the Unix epoch on the system clock; 0 when the clock
/// reads a time before the epoch.
fn unix_time_now() -> u64 {
    let now = system_time_now();
    match since_unix_epoch(&now) {
        Some(d) => whole_seconds(&d),
        None => 0,
    }
}

/// The file-name stem for the current time, `Screenshot_YYYYMMDD_HHMMSS`
/// in the layout of `stem_of`.
pub fn timestamp_stem() -> (r: String)
    ensures
        exists|secs: nat| #[trigger] stem_of(secs) == r@,
{
    let secs = unix_time_now();
    let r = stem_for_time(secs);
    assert(stem_of(secs as nat) == r@);
    r
}

proof fn lemma_digits_concat(a: Seq<char>, b: Seq<char>)
    requires
        all_digits(a),
        all_digits(b),
    ensures
        all_digits(a + b),
{
    assert forall|i: int| 0 <= i < (a + b).len() implies is_digit(#[trigger] (a + b)[i]) by {
        if i < a.len() {
            assert((a + b)[i] == a[i]);
        } else {
            assert((a + b)[i] == b[i - a.len()]);
        }
    }
}

proof fn lemma_pad2(n: nat)
    requires
        n < 100,
    ensures
        pad2(n).len() == 2,
        all_digits(pad2(n)),
{
    lemma_decimal(n);
    if n < 10 {
        lemma_digit_char(0);
        assert(is_digit('0'));
        assert(seq!['0'].len() == 1 && all_digits(seq!['0']));
        lemma_digits_concat(seq!['0'], decimal(n));
    } else {
        assert(decimal(n) == decimal(n / 10).push(digit_char(n % 10)));
    }
}

proof fn lemma_decimal_four(n: nat)
    requires
        1000 <= n <= 9999,
    ensures
        decimal(n).len() == 4,
{
    assert(decimal(n) == decimal(n / 10).push(digit_char(n % 10)));
    assert(decimal(n / 10) == decimal(n / 100).push(digit_char((n / 10) % 10)));
    assert(decimal(n / 100) == decimal(n / 1000).push(digit_char((n / 100) % 10)));
}

/// Every stem for a time whose year has at most four digits is 26 characters:
/// `Screenshot_`, then fifteen characters that are digits except the `_` in
/// the ninth place.
pub proof fn lemma_stem_shape(secs: nat)
    requires
        civil_of((secs / 86400) as int).0 <= 9999,
    ensures
        stem_of(secs).len() == 26,
        stem_of(secs).subrange(0, 11) == "Screenshot_"@,
        forall|i: int| 11 <= i < 26 && i != 19 ==> is_digit(#[trigger] stem_of(secs)[i]),
        stem_of(secs)[19] == '_',
{
    reveal_strlit("Screenshot_");
    reveal_strlit("_");
    let date = civil_of((secs / 86400) as int);
    lemma_civil_of(secs / 86400);
    let t = secs % 86400;
    let yy = decimal(date.0 as nat);
    lemma_decimal(date.0 as nat);
    lemma_decimal_four(date.0 as nat);
    lemma_pad2(date.1 as nat);
    lemma_pad2(date.2 as nat);
    lemma_pad2(t / 3600);
    lemma_pad2(t % 60);
    let a = yy + pad2(date.1 as nat) + pad2(date.2 as nat);
    let b = pad2(t / 3600) + pad2(date.1 as nat) + pad2(t % 60);
    lemma_digits_concat(yy, pad2(date.1 as nat));
    lemma_digits_concat(yy + pad2(date.1 as nat), pad2(date.2 as nat));
    lemma_digits_concat(pad2(t / 3600), pad2(date.1 as nat));
    lemma_digits_concat(pad2(t / 3600) + pad2(date.1 as nat), pad2(t % 60));
    let s = stem_of(secs);
    assert(s =~= "Screenshot_"@ + a + "_"@ + b);
    assert(a.len() == 8 && b.len() == 6);
    assert(s.subrange(0, 11) =~= "Screenshot_"@);
    assert forall|i: int| 11 <= i < 26 && i != 19 implies is_digit(#[trigger] s[i]) by {
        if i < 19 {
            assert(s[i] == a[i - 11]);
        } else {
            assert(s[i] == b[i - 20]);
        }
    }
}

} // verus!
