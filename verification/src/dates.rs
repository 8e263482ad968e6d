//! Calendar dates as the APOD archive uses them, and the calls into `chrono`
//! that read, compare and count them.

use vstd::prelude::*;
use chrono::Datelike;
use crate::chance::random_below;
use crate::text::{decimal, decimal_string, pad2, pad2_string, push_char, trim, trim_str, concat3};

verus! {

/// A day of the proleptic Gregorian calendar, as `chrono::NaiveDate` holds it.
#[derive(Debug, Clone, Copy, PartialEq, Eq, Structural)]
pub struct ApodDate {
    pub year: i32,
    pub month: u32,
    pub day: u32,
}

pub open spec fn is_leap_year(y: int) -> bool {
    (y % 4 == 0 && y % 100 != 0) || y % 400 == 0
}

pub open spec fn days_in_month(y: int, m: int) -> int {
    if m == 2 {
        if is_leap_year(y) {
            29
        } else {
            28
        }
    } else if m == 4 || m == 6 || m == 9 || m == 11 {
        30
    } else {
        31
    }
}

/// A date `chrono::NaiveDate` can hold: an existing day, between 1 January
/// 262144 BCE (year -262143) and 31 December 262142.
pub open spec fn is_calendar_date(d: ApodDate) -> bool {
    &&& -262143 <= d.year <= 262142
    &&& 1 <= d.month <= 12
    &&& 1 <= d.day <= days_in_month(d.year as int, d.month as int)
}

/// Chronological order, which for dates is the order of (year, month, day).
pub open spec fn date_before(a: ApodDate, b: ApodDate) -> bool {
    ||| a.year < b.year
    ||| a.year == b.year && a.month < b.month
    ||| a.year == b.year && a.month == b.month && a.day < b.day
}

pub fn is_before(a: ApodDate, b: ApodDate) -> (r: bool)
    ensures
        r == date_before(a, b),
{
    a.year < b.year || (a.year == b.year && a.month < b.month) || (a.year == b.year && a.month
        == b.month && a.day < b.day)
}

/// The first APOD ever published: 16 June 1995.
pub open spec fn spec_apod_start() -> ApodDate {
    ApodDate { year: 1995, month: 6, day: 16 }
}

pub fn apod_start_date() -> (d: ApodDate)
    ensures
        d == spec_apod_start(),
        is_calendar_date(d),
{
    ApodDate { year: 1995, month: 6, day: 16 }
}

/// The year as `%Y` writes it: four digits at least, and a sign outside
/// 0..=9999.
pub open spec fn year_text(y: int) -> Seq<char> {
    if 0 <= y <= 9999 {
        pad4(y as nat)
    } else if y > 9999 {
        seq!['+'] + decimal(y as nat)
    } else {
        seq!['-'] + pad4((-y) as nat)
    }
}

pub open spec fn pad4(n: nat) -> Seq<char> {
    if n < 10 {
        seq!['0', '0', '0'] + decimal(n)
    } else if n < 100 {
        seq!['0', '0'] + decimal(n)
    } else if n < 1000 {
        seq!['0'] + decimal(n)
    } else {
        decimal(n)
    }
}

/// `%Y-%m-%d`.
pub open spec fn iso_text(d: ApodDate) -> Seq<char> {
    year_text(d.year as int) + seq!['-'] + pad2(d.month as nat) + seq!['-'] + pad2(d.day as nat)
}

/// `%d/%m/%Y`.
pub open spec fn dmy_text(d: ApodDate) -> Seq<char> {
    pad2(d.day as nat) + seq!['/'] + pad2(d.month as nat) + seq!['/'] + year_text(d.year as int)
}

fn pad4_string(n: u64) -> (r: String)
    ensures
        r@ == pad4(n as nat),
{
    let digits = decimal_string(n);
    let mut r = String::new();
    if n < 10 {
        push_char(&mut r, '0');
        push_char(&mut r, '0');
        push_char(&mut r, '0');
    } else if n < 100 {
        push_char(&mut r, '0');
        push_char(&mut r, '0');
    } else if n < 1000 {
        push_char(&mut r, '0');
    }
    r.append(digits.as_str());
    r
}

fn year_string(y: i32) -> (r: String)
    ensures
        r@ == year_text(y as int),
{
    if 0 <= y && y <= 9999 {
        pad4_string(y as u64)
    } else if y > 9999 {
        let mut r = String::new();
        push_char(&mut r, '+');
        let digits = decimal_string(y as u64);
        r.append(digits.as_str());
        r
    } else {
        let mut r = String::new();
        push_char(&mut r, '-');
        let magnitude: u64 = (0 - (y as i64)) as u64;
        let digits = pad4_string(magnitude);
        r.append(digits.as_str());
        r
    }
}

/// The date as `YYYY-MM-DD`, the form the API takes and the store records.
pub fn format_date(d: ApodDate) -> (r: String)
    ensures
        r@ == iso_text(d),
{
    let mut r = year_string(d.year);
    push_char(&mut r, '-');
    let m = pad2_string(d.month as u64);
    r.append(m.as_str());
    push_char(&mut r, '-');
    let day = pad2_string(d.day as u64);
    r.append(day.as_str());
    r
}

/// The date as `DD/MM/YYYY`, the form the panel's messages use.
pub fn format_date_dmy(d: ApodDate) -> (r: String)
    ensures
        r@ == dmy_text(d),
{
    let mut r = pad2_string(d.day as u64);
    push_char(&mut r, '/');
    let m = pad2_string(d.month as u64);
    r.append(m.as_str());
    push_char(&mut r, '/');
    let y = year_string(d.year);
    r.append(y.as_str());
    r
}

/// The date `chrono` reads out of `text` with the format `%Y-%m-%d`, if any.
pub uninterp spec fn parsed_iso_date(text: Seq<char>) -> Option<ApodDate>;

/// `chrono::NaiveDate::parse_from_str(text, "%Y-%m-%d")`, taken apart into its
/// year, month and day. What the parser accepts is left to `chrono` and named
/// rather than restated; what it hands back is always a date a `NaiveDate`
/// can hold.
#[verifier::external_body]
fn parse_iso_date(text: &str) -> (r: Option<ApodDate>)
    ensures
        r == parsed_iso_date(text@),
        r matches Some(d) ==> is_calendar_date(d),
{
    chrono::NaiveDate::parse_from_str(text, "%Y-%m-%d").ok().map(
        |d| ApodDate { year: d.year(), month: d.month(), day: d.day() },
    )
}

/// `chrono::Local::now().date_naive()`: today's date on the local clock, in
/// the local time zone. Nothing is said of which day that is, only that it is
/// a date a `NaiveDate` can hold.
#[verifier::external_body]
pub(crate) fn local_today() -> (d: ApodDate)
    ensures
        is_calendar_date(d),
{
    let d = chrono::Local::now().date_naive();
    ApodDate { year: d.year(), month: d.month(), day: d.day() }
}

/// The last day a `chrono::NaiveDate` can hold: 31 December 262142.
pub open spec fn spec_last_date() -> ApodDate {
    ApodDate { year: 262142, month: 12, day: 31 }
}

/// Days in the years before `y`, counted from 1 January of year 1 and
/// negative before it: 365 a year, plus the Gregorian leap days.
pub open spec fn days_before_year(y: int) -> int {
    365 * (y - 1) + (y - 1) / 4 - (y - 1) / 100 + (y - 1) / 400
}

/// Days in the months of year `y` before month `m`.
pub open spec fn days_before_month(y: int, m: int) -> int {
    let leap_day: int = if m > 2 && is_leap_year(y) { 1 } else { 0 };
    leap_day + if m <= 1 {
        0int
    } else if m == 2 {
        31
    } else if m == 3 {
        59
    } else if m == 4 {
        90
    } else if m == 5 {
        120
    } else if m == 6 {
        151
    } else if m == 7 {
        181
    } else if m == 8 {
        212
    } else if m == 9 {
        243
    } else if m == 10 {
        273
    } else if m == 11 {
        304
    } else {
        334
    }
}

/// The day's position in the proleptic Gregorian calendar: 1 for 1 January
/// of year 1, one more for each day after it.
pub open spec fn day_number(d: ApodDate) -> int {
    days_before_year(d.year as int) + days_before_month(d.year as int, d.month as int) + d.day
}

/// The number of days from `start` to `end`, negative when `end` comes first.
pub open spec fn day_span(start: ApodDate, end: ApodDate) -> int {
    day_number(end) - day_number(start)
}

/// `d` is the day `n` days after `start`.
pub open spec fn is_day_after(start: ApodDate, n: int, d: ApodDate) -> bool {
    is_calendar_date(d) && day_number(d) == day_number(start) + n
}

/// `end.signed_duration_since(start).num_days()` on `chrono::NaiveDate`: the
/// number of days from `start` to `end`, negative when `end` comes first.
#[verifier::external_body]
fn days_between(start: ApodDate, end: ApodDate) -> (n: i64)
    requires
        is_calendar_date(start),
        is_calendar_date(end),
    ensures
        n as int == day_span(start, end),
{
    let s = chrono::NaiveDate::from_ymd_opt(start.year, start.month, start.day).unwrap();
    let e = chrono::NaiveDate::from_ymd_opt(end.year, end.month, end.day).unwrap();
    e.signed_duration_since(s).num_days()
}

/// `start.checked_add_days(Days::new(n))` on `chrono::NaiveDate`: the day `n`
/// days after `start`, or `None` when that is past the last day a
/// `NaiveDate` can hold.
#[verifier::external_body]
fn add_days(start: ApodDate, n: u64) -> (r: Option<ApodDate>)
    requires
        is_calendar_date(start),
    ensures
        r is Some <==> day_number(start) + n <= day_number(spec_last_date()),
        r matches Some(d) ==> is_day_after(start, n as int, d),
{
    chrono::NaiveDate::from_ymd_opt(start.year, start.month, start.day).unwrap().checked_add_days(
        chrono::Days::new(n),
    ).map(|d| ApodDate { year: d.year(), month: d.month(), day: d.day() })
}

/// `y / k` steps up by one exactly where `k` divides `y`.
proof fn lemma_div_step(y: int, k: int)
    requires
        k > 0,
    ensures
        y / k - (y - 1) / k == (if y % k == 0 { 1int } else { 0int }),
{
    vstd::arithmetic::div_mod::lemma_fundamental_div_mod(y, k);
    vstd::arithmetic::div_mod::lemma_mod_bound(y, k);
    let q = y / k;
    let r = y % k;
    if r == 0 {
        assert(y - 1 == (q - 1) * k + (k - 1)) by (nonlinear_arith)
            requires y == k * q + r, r == 0;
        vstd::arithmetic::div_mod::lemma_fundamental_div_mod_converse(y - 1, k, q - 1, k - 1);
    } else {
        assert(y - 1 == q * k + (r - 1)) by (nonlinear_arith)
            requires y == k * q + r;
        vstd::arithmetic::div_mod::lemma_fundamental_div_mod_converse(y - 1, k, q, r - 1);
    }
}

/// A year ends `365` days, or `366` in a leap year, after it starts.
proof fn lemma_next_year(y: int)
    ensures
        days_before_year(y + 1) == days_before_year(y) + 365 + (if is_leap_year(y) { 1int } else { 0int }),
{
    lemma_div_step(y, 4);
    lemma_div_step(y, 100);
    lemma_div_step(y, 400);
    if y % 100 == 0 {
        vstd::arithmetic::div_mod::lemma_fundamental_div_mod(y, 100);
        let q = y / 100;
        assert(y == (25 * q) * 4 + 0) by (nonlinear_arith)
            requires y == 100 * q + 0;
        vstd::arithmetic::div_mod::lemma_fundamental_div_mod_converse(y, 4, 25 * q, 0);
    }
    if y % 400 == 0 {
        vstd::arithmetic::div_mod::lemma_fundamental_div_mod(y, 400);
        let q = y / 400;
        assert(y == (4 * q) * 100 + 0) by (nonlinear_arith)
            requires y == 400 * q + 0;
        vstd::arithmetic::div_mod::lemma_fundamental_div_mod_converse(y, 100, 4 * q, 0);
    }
}

/// Every year starts after the ones before it have ended.
proof fn lemma_years_in_order(y1: int, y2: int)
    requires
        y1 < y2,
    ensures
        days_before_year(y1 + 1) <= days_before_year(y2),
    decreases y2 - y1,
{
    if y1 + 1 < y2 {
        lemma_years_in_order(y1, y2 - 1);
        lemma_next_year(y2 - 1);
    }
}

/// A day falls within its own year.
proof fn lemma_day_in_its_year(d: ApodDate)
    requires
        is_calendar_date(d),
    ensures
        days_before_year(d.year as int) < day_number(d) <= days_before_year(d.year + 1),
{
    lemma_next_year(d.year as int);
}

/// Day numbers follow the calendar: an earlier day has a smaller number.
pub proof fn lemma_day_number_follows_the_calendar(a: ApodDate, b: ApodDate)
    requires
        is_calendar_date(a),
        is_calendar_date(b),
        date_before(a, b),
    ensures
        day_number(a) < day_number(b),
{
    lemma_day_in_its_year(a);
    lemma_day_in_its_year(b);
    if a.year < b.year {
        lemma_years_in_order(a.year as int, b.year as int);
    } else if a.month < b.month {
        let y = a.year as int;
        assert(days_before_month(y, a.month as int) + days_in_month(y, a.month as int)
            <= days_before_month(y, b.month as int));
    }
}

/// The span of the archive up to `today`, in days, never negative.
pub open spec fn archive_span(today: ApodDate) -> int {
    let n = day_span(spec_apod_start(), today);
    if n < 0 {
        0
    } else {
        n
    }
}

/// `d` is the date `offset` days into the archive, or `today` when that is
/// beyond what a date can hold.
pub open spec fn is_archive_date(today: ApodDate, offset: u64, d: ApodDate) -> bool {
    if day_number(spec_apod_start()) + offset <= day_number(spec_last_date()) {
        is_day_after(spec_apod_start(), offset as int, d)
    } else {
        d == today
    }
}

/// Of two calendar dates, the one with the smaller day number comes first.
proof fn lemma_calendar_follows_day_numbers(a: ApodDate, b: ApodDate)
    requires
        is_calendar_date(a),
        is_calendar_date(b),
        day_number(a) < day_number(b),
    ensures
        date_before(a, b),
{
    if !date_before(a, b) && a != b {
        lemma_day_number_follows_the_calendar(b, a);
    }
}

/// Every offset the draw can take is a day of the archive of its own, in
/// order: a larger offset is a later day, and all of them lie between
/// 16 June 1995 and today.
pub proof fn law_offsets_walk_the_archive_in_order(today: ApodDate, k1: u64, k2: u64, d1: ApodDate, d2: ApodDate)
    requires
        is_calendar_date(today),
        !date_before(today, spec_apod_start()),
        k1 < k2,
        k2 <= archive_span(today),
        is_archive_date(today, k1, d1),
        is_archive_date(today, k2, d2),
    ensures
        date_before(d1, d2),
        !date_before(d1, spec_apod_start()),
        !date_before(today, d2),
{
    let start = spec_apod_start();
    let last = spec_last_date();
    if date_before(today, last) {
        lemma_day_number_follows_the_calendar(today, last);
    }
    if date_before(today, start) {
        lemma_day_number_follows_the_calendar(today, start);
    }
    assert(day_number(start) + k2 <= day_number(today) <= day_number(last));
    lemma_calendar_follows_day_numbers(d1, d2);
    if date_before(d1, start) {
        lemma_day_number_follows_the_calendar(d1, start);
    }
    if date_before(today, d2) {
        lemma_day_number_follows_the_calendar(today, d2);
    }
}

/// How many days the archive spans up to `today`.
pub fn archive_days(today: ApodDate) -> (n: u64)
    requires
        is_calendar_date(today),
    ensures
        n as int == archive_span(today),
        n < u64::MAX,
{
    let n = days_between(apod_start_date(), today);
    if n < 0 {
        0
    } else {
        n as u64
    }
}

/// The day `offset` days after the first APOD, falling back on `today`.
pub fn date_in_archive(today: ApodDate, offset: u64) -> (d: ApodDate)
    requires
        is_calendar_date(today),
    ensures
        is_archive_date(today, offset, d),
        is_calendar_date(d),
{
    match add_days(apod_start_date(), offset) {
        Some(d) => d,
        None => today,
    }
}

/// A date drawn at random from the whole archive: on or after 16 June 1995
/// and on or before today. On a clock set before 1995, the draw is the first
/// APOD itself.
pub fn pick_random_date() -> (d: ApodDate)
    ensures
        is_calendar_date(d),
        exists|today: ApodDate, offset: u64|
            {
                &&& is_calendar_date(today)
                &&& offset <= archive_span(today)
                &&& is_archive_date(today, offset, d)
                &&& !date_before(d, spec_apod_start())
                &&& (!date_before(today, spec_apod_start()) ==> !date_before(today, d))
                &&& (date_before(today, spec_apod_start()) ==> d == spec_apod_start())
            },
{
    let today = local_today();
    let span = archive_days(today);
    let offset = random_below(span + 1);
    let d = date_in_archive(today, offset);
    proof {
        let start = spec_apod_start();
        let last = spec_last_date();
        if date_before(today, last) {
            lemma_day_number_follows_the_calendar(today, last);
        }
        if date_before(today, start) {
            lemma_day_number_follows_the_calendar(today, start);
        }
        // The draw lands between the first APOD and today by day number ...
        assert(day_number(start) + offset <= day_number(last));
        assert(day_number(start) <= day_number(d));
        // ... and therefore in the calendar.
        if date_before(d, start) {
            lemma_day_number_follows_the_calendar(d, start);
        }
        if !date_before(today, start) {
            assert(day_number(d) <= day_number(today));
            if date_before(today, d) {
                lemma_day_number_follows_the_calendar(today, d);
            }
        } else {
            assert(offset == 0);
            assert(day_number(d) == day_number(start));
            if date_before(start, d) {
                lemma_day_number_follows_the_calendar(start, d);
            }
            assert(d == start);
        }
    }
    d
}

/// Why a date the user typed cannot be used.
pub open spec fn date_check(raw: Seq<char>, today: ApodDate) -> Result<ApodDate, Seq<char>> {
    let t = trim(raw);
    if t.len() == 0 {
        Err("Pick a date first."@)
    } else {
        match parsed_iso_date(t) {
            None => Err("Invalid date: \""@ + t + "\" (expected format: YYYY-MM-DD)."@),
            Some(d) => if date_before(d, spec_apod_start()) {
                Err("The first APOD dates from 16 June 1995: pick a date from that day on."@)
            } else if date_before(today, d) {
                Err("That date is in the future: pick today or an earlier date."@)
            } else {
                Ok(d)
            },
        }
    }
}

pub open spec fn result_view(r: Result<ApodDate, String>) -> Result<ApodDate, Seq<char>> {
    match r {
        Ok(d) => Ok(d),
        Err(e) => Err(e@),
    }
}

/// Parses and bounds a user-chosen date against a given `today`: between the
/// first APOD (16 June 1995) and `today`, both included.
pub fn check_apod_date(raw: &str, today: ApodDate) -> (r: Result<ApodDate, String>)
    ensures
        result_view(r) == date_check(raw@, today),
{
    let raw = trim_str(raw);
    if raw.unicode_len() == 0 {
        return Err(String::from_str("Pick a date first."));
    }
    let date = match parse_iso_date(raw) {
        Some(d) => d,
        None => {
            return Err(concat3("Invalid date: \"", raw, "\" (expected format: YYYY-MM-DD)."));
        },
    };
    if is_before(date, apod_start_date()) {
        return Err(
            String::from_str(
                "The first APOD dates from 16 June 1995: pick a date from that day on.",
            ),
        );
    }
    if is_before(today, date) {
        return Err(String::from_str("That date is in the future: pick today or an earlier date."));
    }
    Ok(date)
}

/// Parses and bounds a user-chosen date: between the first APOD (16 June
/// 1995) and today on the local clock.
pub fn validate_apod_date(raw: &str) -> (r: Result<ApodDate, String>)
    ensures
        exists|today: ApodDate| is_calendar_date(today) && result_view(r) == date_check(raw@, today),
{
    let today = local_today();
    check_apod_date(raw, today)
}

/// Today's date on the local clock, as `YYYY-MM-DD`.
pub fn today_string() -> (s: String)
    ensures
        exists|today: ApodDate| is_calendar_date(today) && s@ == iso_text(today),
{
    let today = local_today();
    format_date(today)
}

/// A date is accepted only between the first APOD and today, both included.
pub proof fn law_accepted_dates_lie_in_the_archive(raw: Seq<char>, today: ApodDate)
    ensures
        date_check(raw, today) matches Ok(d) ==> !date_before(d, spec_apod_start()) && !date_before(
            today,
            d,
        ),
{
}

} // verus!
