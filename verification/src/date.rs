//! Calendar dates and minute-precision times as plain values, with the
//! `YYYY-MM-DD` / `HH:MM` text forms used by every record editor, and the
//! parse/format round-trip proved.

use vstd::prelude::*;
use crate::num::{
    all_digits, dec_rep, digits_val, is_digit, lemma_digits_val_bound, lemma_digits_val_nonneg,
    lemma_pow10_small, lemma_zero_pad_dec, parse_uint, push_all, u64_to_dec_pad, zero_pad,
};

verus! {

/// A proleptic-Gregorian calendar date with a four-digit year.
#[derive(PartialEq, Eq, Structural, Clone, Copy, Debug)]
pub struct Date {
    pub year: u32,
    pub month: u32,
    pub day: u32,
}

/// A time of day to minute precision.
#[derive(PartialEq, Eq, Structural, Clone, Copy, Debug)]
pub struct Time {
    pub hour: u32,
    pub minute: u32,
}

pub open spec fn is_leap_year(y: int) -> bool {
    y % 4 == 0 && (y % 100 != 0 || y % 400 == 0)
}

pub open spec fn spec_days_in_month(y: int, m: int) -> int {
    if m == 2 {
        if is_leap_year(y) {
            29
        } else {
            28
        }
    } else if m == 4 || m == 6 || m == 9 || m == 11 {
        30
    } else {
        31
    }
}

impl Date {
    /// A well-formed calendar date, representable in the fixed-width
    /// `YYYY-MM-DD` text form.
    pub open spec fn wf(self) -> bool {
        1 <= self.month <= 12 && 1 <= self.day <= spec_days_in_month(
            self.year as int,
            self.month as int,
        ) && self.year <= 9999
    }
}

impl Time {
    pub open spec fn wf(self) -> bool {
        self.hour <= 23 && self.minute <= 59
    }
}

/// Lexicographic order on (year, month, day).
pub open spec fn spec_date_le(a: Date, b: Date) -> bool {
    if a.year != b.year {
        a.year < b.year
    } else if a.month != b.month {
        a.month < b.month
    } else {
        a.day <= b.day
    }
}

pub open spec fn spec_epoch() -> Date {
    Date { year: 1970, month: 1, day: 1 }
}

/// The earliest date any editor accepts.
pub fn epoch_date() -> (r: Date)
    ensures
        r == spec_epoch(),
{
    Date { year: 1970, month: 1, day: 1 }
}

pub fn is_leap_year_exec(y: u32) -> (r: bool)
    ensures
        r == is_leap_year(y as int),
{
    y % 4 == 0 && (y % 100 != 0 || y % 400 == 0)
}

pub fn days_in_month(y: u32, m: u32) -> (r: u32)
    ensures
        r as int == spec_days_in_month(y as int, m as int),
{
    if m == 2 {
        if is_leap_year_exec(y) {
            29
        } else {
            28
        }
    } else if m == 4 || m == 6 || m == 9 || m == 11 {
        30
    } else {
        31
    }
}

pub fn date_le(a: &Date, b: &Date) -> (r: bool)
    ensures
        r == spec_date_le(*a, *b),
{
    if a.year != b.year {
        a.year < b.year
    } else if a.month != b.month {
        a.month < b.month
    } else {
        a.day <= b.day
    }
}

/// The following day, saturating at 9999-12-31.
pub open spec fn spec_next_day(d: Date) -> Date {
    if d.day < spec_days_in_month(d.year as int, d.month as int) {
        Date { year: d.year, month: d.month, day: (d.day + 1) as u32 }
    } else if d.month < 12 {
        Date { year: d.year, month: (d.month + 1) as u32, day: 1 }
    } else if d.year < 9999 {
        Date { year: (d.year + 1) as u32, month: 1, day: 1 }
    } else {
        d
    }
}

pub open spec fn spec_add_days(d: Date, n: nat) -> Date
    decreases n,
{
    if n == 0 {
        d
    } else {
        spec_add_days(spec_next_day(d), (n - 1) as nat)
    }
}

pub fn next_day(d: &Date) -> (r: Date)
    requires
        d.wf(),
    ensures
        r == spec_next_day(*d),
        r.wf(),
{
    if d.day < days_in_month(d.year, d.month) {
        Date { year: d.year, month: d.month, day: d.day + 1 }
    } else if d.month < 12 {
        Date { year: d.year, month: d.month + 1, day: 1 }
    } else if d.year < 9999 {
        Date { year: d.year + 1, month: 1, day: 1 }
    } else {
        *d
    }
}

/// `d` advanced by `n` days, saturating at the end of year 9999.
pub fn add_days(d: &Date, n: u32) -> (r: Date)
    requires
        d.wf(),
        n <= 100000,
    ensures
        r == spec_add_days(*d, n as nat),
        r.wf(),
{
    let mut cur: Date = *d;
    let mut i: u32 = 0;
    while i < n
        invariant
            i <= n,
            cur.wf(),
            spec_add_days(*d, n as nat) == spec_add_days(cur, (n - i) as nat),
        decreases n - i,
    {
        cur = next_day(&cur);
        i = i + 1;
    }
    cur
}

// ---------------------------------------------------------------------------
// Text form
// ---------------------------------------------------------------------------

/// The fixed-width `YYYY-MM-DD` rendering.
pub open spec fn spec_format_date(d: Date) -> Seq<char> {
    zero_pad(dec_rep(d.year as nat), 4) + seq!['-'] + zero_pad(dec_rep(d.month as nat), 2)
        + seq!['-'] + zero_pad(dec_rep(d.day as nat), 2)
}

/// Strict `YYYY-MM-DD`: ten characters, digits in the digit positions,
/// and a valid calendar date.
pub open spec fn spec_parse_date(s: Seq<char>) -> Option<Date> {
    if s.len() == 10 && s[4] == '-' && s[7] == '-' && all_digits(s.subrange(0, 4)) && all_digits(
        s.subrange(5, 7),
    ) && all_digits(s.subrange(8, 10)) {
        let y = digits_val(s.subrange(0, 4));
        let m = digits_val(s.subrange(5, 7));
        let dd = digits_val(s.subrange(8, 10));
        if 1 <= m <= 12 && 1 <= dd <= spec_days_in_month(y, m) {
            Some(Date { year: y as u32, month: m as u32, day: dd as u32 })
        } else {
            None
        }
    } else {
        None
    }
}

pub proof fn lemma_parse_date_wf(s: Seq<char>)
    ensures
        spec_parse_date(s) matches Some(d) ==> d.wf(),
{
    if spec_parse_date(s) is Some {
        lemma_digits_val_bound(s.subrange(0, 4));
        lemma_digits_val_nonneg(s.subrange(0, 4));
        lemma_pow10_small();
    }
}

pub fn format_date(d: &Date) -> (r: Vec<char>)
    requires
        d.wf(),
    ensures
        r@ == spec_format_date(*d),
{
    let mut r = u64_to_dec_pad(d.year as u64, 4);
    r.push('-');
    let m = u64_to_dec_pad(d.month as u64, 2);
    push_all(&mut r, &m);
    r.push('-');
    let dd = u64_to_dec_pad(d.day as u64, 2);
    push_all(&mut r, &dd);
    proof {
        assert(r@ =~= spec_format_date(*d));
    }
    r
}

pub fn parse_date(v: &Vec<char>) -> (r: Option<Date>)
    ensures
        r == spec_parse_date(v@),
{
    if v.len() != 10 {
        return None;
    }
    if !(v[4] == '-' && v[7] == '-') {
        return None;
    }
    let ys = crate::text::sub_chars(v, 0, 4);
    let ms = crate::text::sub_chars(v, 5, 7);
    let ds = crate::text::sub_chars(v, 8, 10);
    let y = match parse_uint(&ys, 9999) {
        Some(y) => y,
        None => {
            proof {
                if all_digits(ys@) && ys@.len() == 4 {
                    lemma_digits_val_bound(ys@);
                    lemma_pow10_small();
                }
            }
            return None;
        },
    };
    let m = match parse_uint(&ms, 99) {
        Some(m) => m,
        None => {
            proof {
                if all_digits(ms@) && ms@.len() == 2 {
                    lemma_digits_val_bound(ms@);
                    lemma_pow10_small();
                }
            }
            return None;
        },
    };
    let d = match parse_uint(&ds, 99) {
        Some(d) => d,
        None => {
            proof {
                if all_digits(ds@) && ds@.len() == 2 {
                    lemma_digits_val_bound(ds@);
                    lemma_pow10_small();
                }
            }
            return None;
        },
    };
    let dm = if 1 <= m && m <= 12 {
        days_in_month(y as u32, m as u32)
    } else {
        0
    };
    if 1 <= m && m <= 12 && 1 <= d && d <= dm as u64 {
        Some(Date { year: y as u32, month: m as u32, day: d as u32 })
    } else {
        None
    }
}

/// Every character of a formatted date is a digit or a dash.
pub proof fn lemma_format_date_chars(d: Date)
    requires
        d.wf(),
    ensures
        forall|i: int|
            0 <= i < spec_format_date(d).len() ==> (is_digit(#[trigger] spec_format_date(d)[i])
                || spec_format_date(d)[i] == '-'),
        spec_format_date(d).len() == 10,
{
    lemma_pow10_small();
    lemma_pow10_small();
    lemma_zero_pad_dec(d.year as nat, 4);
    lemma_zero_pad_dec(d.month as nat, 2);
    lemma_zero_pad_dec(d.day as nat, 2);
    let s = spec_format_date(d);
    let ys = zero_pad(dec_rep(d.year as nat), 4);
    let ms = zero_pad(dec_rep(d.month as nat), 2);
    let ds = zero_pad(dec_rep(d.day as nat), 2);
    assert forall|i: int| 0 <= i < s.len() implies (is_digit(s[i]) || s[i] == '-') by {
        if i < 4 {
            assert(s[i] == ys[i]);
        } else if i == 4 {
        } else if i < 7 {
            assert(s[i] == ms[i - 5]);
        } else if i == 7 {
        } else {
            assert(s[i] == ds[i - 8]);
        }
    }
}

/// Parsing a formatted well-formed date gives the date back.
pub proof fn lemma_date_round_trip(d: Date)
    requires
        d.wf(),
    ensures
        spec_parse_date(spec_format_date(d)) == Some(d),
{
    lemma_pow10_small();
    lemma_pow10_small();
    lemma_zero_pad_dec(d.year as nat, 4);
    lemma_zero_pad_dec(d.month as nat, 2);
    lemma_zero_pad_dec(d.day as nat, 2);
    let s = spec_format_date(d);
    let ys = zero_pad(dec_rep(d.year as nat), 4);
    let ms = zero_pad(dec_rep(d.month as nat), 2);
    let ds = zero_pad(dec_rep(d.day as nat), 2);
    assert(s.subrange(0, 4) =~= ys);
    assert(s.subrange(5, 7) =~= ms);
    assert(s.subrange(8, 10) =~= ds);
    assert(s[4] == '-');
    assert(s[7] == '-');
}

/// The fixed-width `HH:MM` rendering.
pub open spec fn spec_format_time(t: Time) -> Seq<char> {
    zero_pad(dec_rep(t.hour as nat), 2) + seq![':'] + zero_pad(dec_rep(t.minute as nat), 2)
}

/// Strict `HH:MM`: five characters, in range.
pub open spec fn spec_parse_time(s: Seq<char>) -> Option<Time> {
    if s.len() == 5 && s[2] == ':' && all_digits(s.subrange(0, 2)) && all_digits(
        s.subrange(3, 5),
    ) {
        let h = digits_val(s.subrange(0, 2));
        let m = digits_val(s.subrange(3, 5));
        if h <= 23 && m <= 59 {
            Some(Time { hour: h as u32, minute: m as u32 })
        } else {
            None
        }
    } else {
        None
    }
}

pub fn format_time(t: &Time) -> (r: Vec<char>)
    requires
        t.wf(),
    ensures
        r@ == spec_format_time(*t),
{
    let mut r = u64_to_dec_pad(t.hour as u64, 2);
    r.push(':');
    let m = u64_to_dec_pad(t.minute as u64, 2);
    push_all(&mut r, &m);
    proof {
        assert(r@ =~= spec_format_time(*t));
    }
    r
}

pub fn parse_time(v: &Vec<char>) -> (r: Option<Time>)
    ensures
        r == spec_parse_time(v@),
{
    if v.len() != 5 {
        return None;
    }
    if v[2] != ':' {
        return None;
    }
    let hs = crate::text::sub_chars(v, 0, 2);
    let ms = crate::text::sub_chars(v, 3, 5);
    let h = match parse_uint(&hs, 99) {
        Some(h) => h,
        None => {
            proof {
                if all_digits(hs@) && hs@.len() == 2 {
                    lemma_digits_val_bound(hs@);
                    lemma_pow10_small();
                }
            }
            return None;
        },
    };
    let m = match parse_uint(&ms, 99) {
        Some(m) => m,
        None => {
            proof {
                if all_digits(ms@) && ms@.len() == 2 {
                    lemma_digits_val_bound(ms@);
                    lemma_pow10_small();
                }
            }
            return None;
        },
    };
    if h <= 23 && m <= 59 {
        Some(Time { hour: h as u32, minute: m as u32 })
    } else {
        None
    }
}

/// Every character of a formatted time is a digit or a colon.
pub proof fn lemma_format_time_chars(t: Time)
    requires
        t.wf(),
    ensures
        forall|i: int|
            0 <= i < spec_format_time(t).len() ==> (is_digit(#[trigger] spec_format_time(t)[i])
                || spec_format_time(t)[i] == ':'),
        spec_format_time(t).len() == 5,
{
    lemma_pow10_small();
    lemma_zero_pad_dec(t.hour as nat, 2);
    lemma_zero_pad_dec(t.minute as nat, 2);
    let s = spec_format_time(t);
    let hs = zero_pad(dec_rep(t.hour as nat), 2);
    let ms = zero_pad(dec_rep(t.minute as nat), 2);
    assert forall|i: int| 0 <= i < s.len() implies (is_digit(s[i]) || s[i] == ':') by {
        if i < 2 {
            assert(s[i] == hs[i]);
        } else if i == 2 {
        } else {
            assert(s[i] == ms[i - 3]);
        }
    }
}

/// Parsing a formatted well-formed time gives the time back.
pub proof fn lemma_time_round_trip(t: Time)
    requires
        t.wf(),
    ensures
        spec_parse_time(spec_format_time(t)) == Some(t),
{
    lemma_pow10_small();
    lemma_zero_pad_dec(t.hour as nat, 2);
    lemma_zero_pad_dec(t.minute as nat, 2);
    let s = spec_format_time(t);
    assert(s.subrange(0, 2) =~= zero_pad(dec_rep(t.hour as nat), 2));
    assert(s.subrange(3, 5) =~= zero_pad(dec_rep(t.minute as nat), 2));
    assert(s[2] == ':');
}

} // verus!
