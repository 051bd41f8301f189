//! Calendar dates: the date a session log is filed under, and the bounds of
//! the day, week and month buckets.
use vstd::prelude::*;
use chrono::Datelike;

verus! {

/// A calendar date (proleptic Gregorian).
#[derive(PartialEq, Eq, Structural, Clone, Copy, Debug)]
pub struct Date {
    pub year: i32,
    pub month: u32,
    pub day: u32,
}

/// The first and last years that `chrono::NaiveDate` represents.
pub open spec fn min_calendar_year() -> int {
    -262143
}

pub open spec fn max_calendar_year() -> int {
    262142
}

pub open spec fn is_leap_year(y: int) -> bool {
    (y % 4 == 0 && y % 100 != 0) || y % 400 == 0
}

pub open spec fn days_in_month(y: int, m: int) -> int {
    if m == 2 {
        if is_leap_year(y) {
            29
        } else {
            28
        }
    } else if m == 4 || m == 6 || m == 9 || m == 11 {
        30
    } else {
        31
    }
}

/// The calendar day exists and lies in the range that `chrono` represents.
pub open spec fn valid_calendar_date(y: int, m: int, d: int) -> bool {
    &&& min_calendar_year() <= y <= max_calendar_year()
    &&& 1 <= m <= 12
    &&& 1 <= d <= days_in_month(y, m)
}

pub open spec fn date_is_valid(date: Date) -> bool {
    valid_calendar_date(date.year as int, date.month as int, date.day as int)
}

/// Chronological order, which on valid dates is the order of
/// (year, month, day).
pub open spec fn date_le(a: Date, b: Date) -> bool {
    a.year < b.year || (a.year == b.year && (a.month < b.month || (a.month == b.month
        && a.day <= b.day)))
}

impl Date {
    /// `self` is on or before `other`.
    pub fn le(&self, other: &Date) -> (res: bool)
        ensures
            res == date_le(*self, *other),
    {
        self.year < other.year || (self.year == other.year && (self.month < other.month || (
        self.month == other.month && self.day <= other.day)))
    }
}

/// `chrono::NaiveDate::from_ymd_opt`, read back with the `Datelike` getters.
/// Claims, as chrono's documentation says: a date is made exactly when the
/// calendar day exists and the year is in chrono's range, and it is that day.
#[verifier::external_body]
pub fn calendar_date(year: i32, month: u32, day: u32) -> (res: Option<Date>)
    ensures
        res == (if valid_calendar_date(year as int, month as int, day as int) {
            Some(Date { year, month, day })
        } else {
            None
        }),
{
    match chrono::NaiveDate::from_ymd_opt(year, month, day) {
        Some(d) => Some(Date { year: d.year(), month: d.month(), day: d.day() }),
        None => None,
    }
}

/// The date `days` days before a date.
pub uninterp spec fn date_minus_days(date: Date, days: u32) -> Option<Date>;

/// `chrono::NaiveDate::checked_sub_days`, on the date that `from_ymd_opt` makes.
/// Claims: the result is `date_minus_days`; a date it gives is valid and not
/// after the date it started from.
#[verifier::external_body]
pub fn days_before(date: Date, days: u32) -> (res: Option<Date>)
    ensures
        res == date_minus_days(date, days),
        res matches Some(r) ==> date_is_valid(r) && date_le(r, date),
{
    match chrono::NaiveDate::from_ymd_opt(date.year, date.month, date.day) {
        Some(d) => match d.checked_sub_days(chrono::Days::new(days as u64)) {
            Some(r) => Some(Date { year: r.year(), month: r.month(), day: r.day() }),
            None => None,
        },
        None => None,
    }
}

pub open spec fn is_ascii_digit(c: char) -> bool {
    48 <= (c as int) <= 57
}

/// A non-empty run of ASCII digits.
pub open spec fn all_digits(s: Seq<char>) -> bool {
    s.len() > 0 && forall|i: int| 0 <= i < s.len() ==> is_ascii_digit(#[trigger] s[i])
}

/// The decimal value of a run of digits.
pub open spec fn digits_value(s: Seq<char>) -> int
    decreases s.len(),
{
    if s.len() == 0 {
        0
    } else {
        digits_value(s.drop_last()) * 10 + ((s.last() as int) - 48)
    }
}

/// What `from_str` reads as a decimal integer: an optional `+` (or, where
/// `signed`, `-`) followed by one or more ASCII digits, and nothing else.
pub open spec fn decimal_value(s: Seq<char>, signed: bool) -> Option<int> {
    if s.len() > 0 && s[0] == '+' && all_digits(s.drop_first()) {
        Some(digits_value(s.drop_first()))
    } else if signed && s.len() > 0 && s[0] == '-' && all_digits(s.drop_first()) {
        Some(-digits_value(s.drop_first()))
    } else if all_digits(s) {
        Some(digits_value(s))
    } else {
        None
    }
}

/// What `str::parse::<i32>` reads from a text: its decimal value, where that
/// fits in `i32`.
pub open spec fn parsed_i32(text: Seq<char>) -> Option<i32> {
    match decimal_value(text, true) {
        Some(v) => if i32::MIN <= v <= i32::MAX {
            Some(v as i32)
        } else {
            None
        },
        None => None,
    }
}

/// What `str::parse::<u32>` reads from a text: its decimal value (no `-`
/// sign), where that fits in `u32`.
pub open spec fn parsed_u32(text: Seq<char>) -> Option<u32> {
    match decimal_value(text, false) {
        Some(v) => if 0 <= v <= u32::MAX {
            Some(v as u32)
        } else {
            None
        },
        None => None,
    }
}

/// `str::parse::<i32>`. Claims, as the documentation of `i32::from_str`
/// says: a text parses when it is an optional `+` or `-` sign followed by
/// ASCII digits only, and its value fits in `i32`; the result is that value.
#[verifier::external_body]
pub fn parse_i32(text: &str) -> (res: Option<i32>)
    ensures
        res == parsed_i32(text@),
{
    text.parse::<i32>().ok()
}

/// `str::parse::<u32>`. Claims, as the documentation of `u32::from_str`
/// says: a text parses when it is an optional `+` sign followed by ASCII
/// digits only, and its value fits in `u32`; the result is that value.
#[verifier::external_body]
pub fn parse_u32(text: &str) -> (res: Option<u32>)
    ensures
        res == parsed_u32(text@),
{
    text.parse::<u32>().ok()
}

/// A text split at each `/` (as `str::split('/')` splits it).
pub open spec fn split_slash(p: Seq<char>) -> Seq<Seq<char>>
    decreases p.len(),
{
    if p.len() == 0 {
        seq![Seq::<char>::empty()]
    } else {
        let rest = split_slash(p.drop_last());
        if p.last() == '/' {
            rest.push(Seq::<char>::empty())
        } else {
            rest.update(rest.len() - 1, rest.last().push(p.last()))
        }
    }
}

/// The non-empty segments between the `/` of a path, in order.
pub open spec fn path_segments(p: Seq<char>) -> Seq<Seq<char>> {
    split_slash(p).filter(|s: Seq<char>| s.len() > 0)
}

/// A path that every platform splits alike: only `/` separates (no `\\`), no
/// drive or prefix (no `:`, no leading `//`), and no `.` segment.
pub open spec fn portable_path(p: Seq<char>) -> bool {
    &&& !p.contains('\\')
    &&& !p.contains(':')
    &&& !(p.len() >= 2 && p[0] == '/' && p[1] == '/')
    &&& !split_slash(p).contains("."@)
}

pub open spec fn starts_at_root(p: Seq<char>) -> bool {
    p.len() > 0 && p[0] == '/'
}

/// The text of a root component: the platform's main separator.
pub open spec fn is_root_text(t: Seq<char>) -> bool {
    t == seq!['/'] || t == seq!['\\']
}

/// The components `Path::iter` gives for a portable path: a root component
/// where the path starts with `/`, then its non-empty segments (repeated and
/// trailing separators are ignored).
pub open spec fn components_match(v: Seq<Seq<char>>, p: Seq<char>) -> bool {
    if starts_at_root(p) {
        v.len() == path_segments(p).len() + 1 && is_root_text(v[0]) && v.drop_first() == path_segments(p)
    } else {
        v == path_segments(p)
    }
}

/// The components of a path (`std::path::Path::iter`), keeping those that are
/// valid UTF-8. Claims, as `Path::components` documents: on a portable path,
/// the components are a root (written as the platform's main separator)
/// where the path starts with `/`, then the non-empty segments between the
/// separators. Other paths split by the platform's rules, of which nothing is
/// claimed.
#[verifier::external_body]
pub fn path_components(path: &str) -> (res: Vec<String>)
    ensures
        portable_path(path@) ==> components_match(res@.map_values(|c: String| c@), path@),
{
    std::path::Path::new(path).iter().filter_map(|c| c.to_str()).map(String::from).collect()
}

/// The date read from three consecutive components, from index `idx` on: the
/// first `year/month/day` triple that parses, has a year in 2000..=2100 and
/// names an existing day.
pub open spec fn date_from_parts_spec(parts: Seq<Seq<char>>, idx: int) -> Option<Date>
    decreases parts.len() - idx,
{
    if 0 <= idx && idx + 2 < parts.len() {
        match (parsed_i32(parts[idx]), parsed_u32(parts[idx + 1]), parsed_u32(parts[idx + 2])) {
            (Some(y), Some(m), Some(d)) => if 2000 <= y <= 2100 && valid_calendar_date(
                y as int,
                m as int,
                d as int,
            ) {
                Some(Date { year: y, month: m, day: d })
            } else {
                date_from_parts_spec(parts, idx + 1)
            },
            _ => date_from_parts_spec(parts, idx + 1),
        }
    } else {
        None
    }
}

/// A date read from path components comes from three consecutive components
/// that read, in order, as its year, month and day, with the year in
/// 2000..=2100 and a day that exists.
pub proof fn lemma_date_from_parts_triple(parts: Seq<Seq<char>>, idx: int)
    ensures
        date_from_parts_spec(parts, idx) matches Some(d) ==> 2000 <= d.year <= 2100 && valid_calendar_date(
            d.year as int,
            d.month as int,
            d.day as int,
        ) && exists|i: int|
            idx <= i && i + 2 < parts.len() && #[trigger] parsed_i32(parts[i]) == Some(d.year) && parsed_u32(
                parts[i + 1],
            ) == Some(d.month) && parsed_u32(parts[i + 2]) == Some(d.day),
    decreases parts.len() - idx,
{
    if 0 <= idx && idx + 2 < parts.len() {
        lemma_date_from_parts_triple(parts, idx + 1);
    }
}

/// Finds the date that a log file is filed under from its path components
/// (`.../2025/06/14/...`).
pub fn date_from_parts(parts: &[String]) -> (res: Option<Date>)
    ensures
        res == date_from_parts_spec(parts@.map_values(|s: String| s@), 0),
{
    let ghost pv = parts@.map_values(|s: String| s@);
    let n = parts.len();
    if n < 3 {
        return None;
    }
    let mut idx: usize = 0;
    while idx + 2 < n
        invariant
            n == parts@.len(),
            n >= 3,
            idx + 2 <= n,
            pv == parts@.map_values(|s: String| s@),
            date_from_parts_spec(pv, 0) == date_from_parts_spec(pv, idx as int),
        decreases n - idx,
    {
        assert(pv[idx as int] == parts@[idx as int]@);
        assert(pv[idx + 1] == parts@[idx + 1]@);
        assert(pv[idx + 2] == parts@[idx + 2]@);
        let y = parse_i32(parts[idx].as_str());
        let m = parse_u32(parts[idx + 1].as_str());
        let d = parse_u32(parts[idx + 2].as_str());
        if let (Some(y), Some(m), Some(d)) = (y, m, d) {
            if 2000 <= y && y <= 2100 {
                if let Some(date) = calendar_date(y, m, d) {
                    return Some(date);
                }
            }
        }
        idx += 1;
    }
    None
}

/// The date a session log file is filed under, read from its path: on a
/// portable path, the first year/month/day triple among its segments.
pub fn extract_date_from_path(path: &str) -> (res: Option<Date>)
    ensures
        res matches Some(d) ==> date_is_valid(d) && 2000 <= d.year <= 2100,
        portable_path(path@) ==> res == date_from_parts_spec(path_segments(path@), 0),
{
    let parts = path_components(path);
    let res = date_from_parts(parts.as_slice());
    proof {
        let pv = parts@.map_values(|s: String| s@);
        lemma_date_from_parts_valid(pv, 0);
        if portable_path(path@) && starts_at_root(path@) {
            let r = pv[0];
            assert(is_root_text(r));
            assert(parsed_i32(r) is None) by {
                assert(r.len() == 1);
                assert(!is_ascii_digit(r[0]));
                assert(r[0] != '+' && r[0] != '-');
                assert(!all_digits(r));
                assert(r.drop_first().len() == 0);
                assert(!all_digits(r.drop_first()));
            }
            lemma_skip_first_part(pv);
        }
    }
    res
}

proof fn lemma_shift_parts(s: Seq<Seq<char>>, i: int)
    requires
        0 <= i,
        s.len() >= 1,
    ensures
        date_from_parts_spec(s, i + 1) == date_from_parts_spec(s.drop_first(), i),
    decreases s.len() - i,
{
    let t = s.drop_first();
    if i + 3 < s.len() {
        assert(s[i + 1] == t[i]);
        assert(s[i + 2] == t[i + 1]);
        assert(s[i + 3] == t[i + 2]);
        lemma_shift_parts(s, i + 1);
    }
}

/// A first component that does not read as a year takes no part in the date.
proof fn lemma_skip_first_part(s: Seq<Seq<char>>)
    requires
        s.len() >= 1,
        parsed_i32(s[0]) is None,
    ensures
        date_from_parts_spec(s, 0) == date_from_parts_spec(s.drop_first(), 0),
{
    lemma_shift_parts(s, 0);
}

proof fn lemma_date_from_parts_valid(parts: Seq<Seq<char>>, idx: int)
    ensures
        date_from_parts_spec(parts, idx) matches Some(d) ==> date_is_valid(d) && 2000 <= d.year
            <= 2100,
    decreases parts.len() - idx,
{
    if 0 <= idx && idx + 2 < parts.len() {
        lemma_date_from_parts_valid(parts, idx + 1);
    }
}

/// The first day of a date's month (`from_ymd_opt(year, month, 1)`), or the
/// date itself where that day cannot be made.
pub fn first_of_month(today: Date) -> (res: Date)
    ensures
        res == (if valid_calendar_date(today.year as int, today.month as int, 1) {
            Date { year: today.year, month: today.month, day: 1 }
        } else {
            today
        }),
{
    match calendar_date(today.year, today.month, 1) {
        Some(d) => d,
        None => today,
    }
}

} // verus!
