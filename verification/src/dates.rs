//! A plain calendar-date model: parsing "year-month-day" air dates,
//! comparing dates, and counting the episodes that have aired by a day.
//!
//! The grammar is four year digits, a dash, one or two month digits, a
//! dash, and one or two day digits, with nothing after them; the date must
//! exist in the proleptic Gregorian calendar (leap years included).

use vstd::prelude::*;
use crate::bangumi::Episode;
use crate::decimal::{digits_value, is_digit};
use crate::text::str_eq;

verus! {

/// A calendar date as plain values.
#[derive(PartialEq, Eq, Structural, Clone, Copy, Debug)]
pub struct Date {
    pub year: i32,
    pub month: u32,
    pub day: u32,
}

/// Whether a year is a leap year.
pub open spec fn is_leap(y: int) -> bool {
    y % 4 == 0 && (y % 100 != 0 || y % 400 == 0)
}

/// The number of days of a month.
pub open spec fn days_in_month(y: int, m: int) -> int {
    if m == 1 || m == 3 || m == 5 || m == 7 || m == 8 || m == 10 || m == 12 {
        31
    } else if m == 4 || m == 6 || m == 9 || m == 11 {
        30
    } else if is_leap(y) {
        29
    } else {
        28
    }
}

/// Whether a year/month/day triple names an existing date.
pub open spec fn date_valid(y: int, m: int, d: int) -> bool {
    1 <= m <= 12 && 1 <= d <= days_in_month(y, m)
}

/// What parsing an air date yields: the date of a well-formed, existing
/// "year-month-day" text, and nothing otherwise.
pub open spec fn parse_date_spec(s: Seq<char>) -> Option<Date> {
    let n = s.len() as int;
    if n < 8 || n > 10 {
        None
    } else if !(is_digit(s[0]) && is_digit(s[1]) && is_digit(s[2]) && is_digit(s[3]) && s[4] == '-'
        && is_digit(s[5])) {
        None
    } else {
        let y = digits_value(s.subrange(0, 4)) as int;
        let two_month = 6 < n && is_digit(s[6]);
        let m = if two_month {
            digits_value(s.subrange(5, 7)) as int
        } else {
            digits_value(s.subrange(5, 6)) as int
        };
        let di: int = if two_month {
            7
        } else {
            6
        };
        if !(di < n && s[di] == '-' && di + 1 < n && is_digit(s[di + 1])) {
            None
        } else {
            let two_day = di + 2 < n && is_digit(s[di + 2]);
            let d = if two_day {
                digits_value(s.subrange(di + 1, di + 3)) as int
            } else {
                digits_value(s.subrange(di + 1, di + 2)) as int
            };
            let end: int = if two_day {
                di + 3
            } else {
                di + 2
            };
            if end == n && date_valid(y, m, d) {
                Some(Date { year: y as i32, month: m as u32, day: d as u32 })
            } else {
                None
            }
        }
    }
}

fn digit_at(v: &Vec<char>, i: usize) -> (r: bool)
    requires
        i < v@.len(),
    ensures
        r == is_digit(v@[i as int]),
{
    '0' <= v[i] && v[i] <= '9'
}

fn digit_val(v: &Vec<char>, i: usize) -> (r: u32)
    requires
        i < v@.len(),
        is_digit(v@[i as int]),
    ensures
        r == (v@[i as int] as nat) - 48,
        r < 10,
{
    (v[i] as u8 - 48) as u32
}

proof fn lemma_dv_succ(s: Seq<char>, i: int, j: int)
    requires
        0 <= i <= j,
        j < s.len(),
    ensures
        digits_value(s.subrange(i, j + 1)) == digits_value(s.subrange(i, j)) * 10 + ((s[j]
            as nat - 48) as nat),
        digits_value(s.subrange(i, i)) == 0,
{
    let p = s.subrange(i, j + 1);
    assert(p.drop_last() =~= s.subrange(i, j));
    assert(p.last() == s[j]);
    assert(s.subrange(i, i) =~= Seq::<char>::empty());
}

fn exec_leap(y: i32) -> (r: bool)
    ensures
        r == is_leap(y as int),
{
    y % 4 == 0 && (y % 100 != 0 || y % 400 == 0)
}

fn exec_date_valid(y: i32, m: u32, d: u32) -> (r: bool)
    ensures
        r == date_valid(y as int, m as int, d as int),
{
    if !(1 <= m && m <= 12) {
        return false;
    }
    let dim: u32 = if m == 1 || m == 3 || m == 5 || m == 7 || m == 8 || m == 10 || m == 12 {
        31
    } else if m == 4 || m == 6 || m == 9 || m == 11 {
        30
    } else if exec_leap(y) {
        29
    } else {
        28
    };
    1 <= d && d <= dim
}

/// Parse an optional air-date text into a date, if it is well formed.
pub fn parse_airdate(value: &Option<String>) -> (r: Option<Date>)
    ensures
        match value {
            Some(s) => r == parse_date_spec(s@),
            None => r is None,
        },
{
    let s = match value {
        Some(s) => s,
        None => {
            return None;
        },
    };
    let v = crate::text::str_chars(s.as_str());
    let n = v.len();
    if n < 8 || n > 10 {
        return None;
    }
    if !(digit_at(&v, 0) && digit_at(&v, 1) && digit_at(&v, 2) && digit_at(&v, 3) && v[4] == '-'
        && digit_at(&v, 5)) {
        return None;
    }
    let y: u32 = ((digit_val(&v, 0) * 10 + digit_val(&v, 1)) * 10 + digit_val(&v, 2)) * 10
        + digit_val(&v, 3);
    proof {
        lemma_dv_succ(v@, 0, 0);
        lemma_dv_succ(v@, 0, 1);
        lemma_dv_succ(v@, 0, 2);
        lemma_dv_succ(v@, 0, 3);
        assert(y == digits_value(v@.subrange(0, 4)));
    }
    let two_month = 6 < n && digit_at(&v, 6);
    let m: u32 = if two_month {
        proof {
            lemma_dv_succ(v@, 5, 5);
            lemma_dv_succ(v@, 5, 6);
        }
        digit_val(&v, 5) * 10 + digit_val(&v, 6)
    } else {
        proof {
            lemma_dv_succ(v@, 5, 5);
        }
        digit_val(&v, 5)
    };
    let di: usize = if two_month {
        7
    } else {
        6
    };
    if !(di < n && v[di] == '-' && di + 1 < n && digit_at(&v, di + 1)) {
        return None;
    }
    let two_day = di + 2 < n && digit_at(&v, di + 2);
    let d: u32 = if two_day {
        proof {
            lemma_dv_succ(v@, di + 1, di + 1);
            lemma_dv_succ(v@, di + 1, di + 2);
        }
        digit_val(&v, di + 1) * 10 + digit_val(&v, di + 2)
    } else {
        proof {
            lemma_dv_succ(v@, di + 1, di + 1);
        }
        digit_val(&v, di + 1)
    };
    let end = if two_day {
        di + 3
    } else {
        di + 2
    };
    if end == n && exec_date_valid(y as i32, m, d) {
        Some(Date { year: y as i32, month: m, day: d })
    } else {
        None
    }
}

/// Whether date `a` is on or before date `b`.
pub open spec fn date_le_spec(a: Date, b: Date) -> bool {
    a.year < b.year || (a.year == b.year && (a.month < b.month || (a.month == b.month && a.day
        <= b.day)))
}

/// Compare two dates.
pub fn date_le(a: &Date, b: &Date) -> (r: bool)
    ensures
        r == date_le_spec(*a, *b),
{
    a.year < b.year || (a.year == b.year && (a.month < b.month || (a.month == b.month && a.day
        <= b.day)))
}

/// Whether an episode has aired by `today`: its status says so outright,
/// or its air date parses and is not in the future.
pub open spec fn is_aired_spec(e: Episode, today: Date) -> bool {
    (match e.status {
        Some(st) => st@ == "air"@,
        None => false,
    }) || (match e.airdate {
        Some(a) => match parse_date_spec(a@) {
            Some(d) => date_le_spec(d, today),
            None => false,
        },
        None => false,
    })
}

/// Decide whether an episode has aired by `today`.
pub fn is_aired(e: &Episode, today: Date) -> (r: bool)
    ensures
        r == is_aired_spec(*e, today),
{
    match &e.status {
        Some(st) => {
            if str_eq(st.as_str(), "air") {
                return true;
            }
        },
        None => {},
    }
    match parse_airdate(&e.airdate) {
        Some(d) => date_le(&d, &today),
        None => false,
    }
}

/// How many episodes from index `i` on have aired by `today`.
pub open spec fn aired_count_from(eps: Seq<Episode>, today: Date, i: int) -> nat
    decreases eps.len() - i,
{
    if i < 0 || i >= eps.len() {
        0
    } else {
        (if is_aired_spec(eps[i], today) {
            1nat
        } else {
            0nat
        }) + aired_count_from(eps, today, i + 1)
    }
}

/// Count the episodes that have aired by `today`.
pub fn count_aired(episodes: &Vec<Episode>, today: Date) -> (r: u32)
    requires
        episodes@.len() <= u32::MAX,
    ensures
        r == aired_count_from(episodes@, today, 0),
{
    let mut c: u32 = 0;
    let n = episodes.len();
    for i in 0..n
        invariant
            n == episodes@.len(),
            n <= u32::MAX,
            c <= i,
            c + aired_count_from(episodes@, today, i as int) == aired_count_from(
                episodes@,
                today,
                0,
            ),
    {
        if is_aired(&episodes[i], today) {
            c = c + 1;
        }
    }
    c
}

/// Relies on `chrono::Utc::now` and `chrono::NaiveDate`'s `year`, `month`
/// and `day`: the current UTC calendar date, with the month in 1..=12 and
/// the day in 1..=31 as chrono documents them.
#[verifier::external_body]
fn today_utc() -> (r: Date)
    ensures
        1 <= r.month <= 12,
        1 <= r.day <= 31,
{
    let d = chrono::Utc::now().date_naive();
    Date { year: chrono::Datelike::year(&d), month: chrono::Datelike::month(&d), day: chrono::Datelike::day(&d) }
}

/// Count the episodes that have aired by today (in UTC), and report the
/// date the count was taken against.
pub fn count_aired_today(episodes: &Vec<Episode>) -> (r: (u32, Date))
    requires
        episodes@.len() <= u32::MAX,
    ensures
        1 <= r.1.month <= 12,
        1 <= r.1.day <= 31,
        r.0 == aired_count_from(episodes@, r.1, 0),
{
    let today = today_utc();
    (count_aired(episodes, today), today)
}

} // verus!
