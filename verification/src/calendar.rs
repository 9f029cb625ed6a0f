//! Points in time, written as a calendar date and a time of day in UTC.

use chrono::NaiveDateTime;
use vstd::prelude::*;

verus! {

use crate::command::agrees;
use crate::number::{digit_char, digits_value, is_digit};

/// How a point in time is written: year, month and day, a `T`, and hours, minutes and seconds.
pub const TIME_FORMAT: &'static str = "%Y-%m-%dT%H:%M:%S";

/// Whether the characters from `from` up to `to` are digits.
pub open spec fn digits_at(s: Seq<char>, from: int, to: int) -> bool {
    forall|i: int| from <= i < to ==> is_digit(#[trigger] s[i])
}

/// Whether a text has the form `YYYY-MM-DDThh:mm:ss`, with ASCII digits.
pub open spec fn is_time_text(s: Seq<char>) -> bool {
    &&& s.len() == 19
    &&& digits_at(s, 0, 4) && s[4] == '-'
    &&& digits_at(s, 5, 7) && s[7] == '-'
    &&& digits_at(s, 8, 10) && s[10] == 'T'
    &&& digits_at(s, 11, 13) && s[13] == ':'
    &&& digits_at(s, 14, 16) && s[16] == ':'
    &&& digits_at(s, 17, 19)
}

/// The number that the characters from `from` up to `to` stand for.
pub open spec fn number_at(s: Seq<char>, from: int, to: int) -> int {
    digits_value(s.subrange(from, to)) as int
}

/// Whether a year of the Gregorian calendar has a 29th of February.
pub open spec fn is_leap_year(year: int) -> bool {
    year % 4 == 0 && (year % 100 != 0 || year % 400 == 0)
}

/// The number of days of a month.
pub open spec fn days_in_month(year: int, month: int) -> int {
    if month == 2 {
        if is_leap_year(year) {
            29
        } else {
            28
        }
    } else if month == 4 || month == 6 || month == 9 || month == 11 {
        30
    } else {
        31
    }
}

/// The number of days of a year that precede a month.
pub open spec fn days_before_month(year: int, month: int) -> int
    decreases month,
{
    if month <= 1 {
        0
    } else {
        days_before_month(year, month - 1) + days_in_month(year, month - 1)
    }
}

/// The number of days from the first of January of the year one to that of the given year.
pub open spec fn days_before_year(year: int) -> int {
    365 * (year - 1) + (year - 1) / 4 - (year - 1) / 100 + (year - 1) / 400
}

/// Whether the calendar has the date and the day has the time. The second 60 is a leap second.
pub open spec fn time_exists(s: Seq<char>) -> bool {
    let (year, month, day) = (number_at(s, 0, 4), number_at(s, 5, 7), number_at(s, 8, 10));
    &&& 1 <= month <= 12
    &&& 1 <= day <= days_in_month(year, month)
    &&& number_at(s, 11, 13) < 24
    &&& number_at(s, 14, 16) < 60
    &&& number_at(s, 17, 19) <= 60
}

/// The number of days from the first of January 1970 to a date.
pub open spec fn days_since_epoch(year: int, month: int, day: int) -> int {
    days_before_year(year) - days_before_year(1970) + days_before_month(year, month) + day - 1
}

/// The number of seconds since the beginning of 1970, leap seconds not counted.
pub open spec fn seconds_since_epoch(s: Seq<char>) -> int {
    let second = number_at(s, 17, 19);
    days_since_epoch(number_at(s, 0, 4), number_at(s, 5, 7), number_at(s, 8, 10)) * 86400
        + number_at(s, 11, 13) * 3600 + number_at(s, 14, 16) * 60 + (if second == 60 {
        59
    } else {
        second
    })
}

/// The Unix time of what `NaiveDateTime::parse_from_str` reads, or what its error says.
pub uninterp spec fn chrono_seconds(text: Seq<char>, format: Seq<char>) -> Result<i64, Seq<char>>;

/// Reads a point in time with `NaiveDateTime::parse_from_str` and returns its Unix time in UTC.
/// The result depends on the text and the format. A text in ASCII digits is read as a date of the
/// Gregorian calendar; what is made of a text of another form is not stated.
#[verifier::external_body]
fn parse_utc(text: &str, format: &str) -> (r: Result<i64, String>)
    requires
        format@ == TIME_FORMAT@,
    ensures
        match r {
            Ok(seconds) => chrono_seconds(text@, format@) == Ok::<i64, Seq<char>>(seconds),
            Err(e) => chrono_seconds(text@, format@) == Err::<i64, Seq<char>>(e@),
        },
        is_time_text(text@) ==> match r {
            Ok(seconds) => time_exists(text@) && seconds == seconds_since_epoch(text@),
            Err(e) => !time_exists(text@) && e@ == "input is out of range"@,
        },
{
    match NaiveDateTime::parse_from_str(text, format) {
        Ok(time) => Ok(time.and_utc().timestamp()),
        Err(e) => Err(e.to_string()),
    }
}

/// The Unix time of a text, given what the date parser made of it.
pub open spec fn time_or_error(text: Seq<char>, outcome: Result<i64, Seq<char>>) -> Result<
    i64,
    Seq<char>,
> {
    match outcome {
        Ok(seconds) => Ok(seconds),
        Err(e) => Err("unable to parse date '"@ + text + "': "@ + e),
    }
}

/// Adds the text to the error of the date parser.
pub fn explain_time(text: &str, outcome: Result<i64, String>) -> (r: Result<i64, String>)
    ensures
        outcome matches Ok(seconds) ==> agrees(r, time_or_error(text@, Ok(seconds))),
        outcome matches Err(e) ==> agrees(r, time_or_error(text@, Err(e@))),
{
    match outcome {
        Ok(seconds) => Ok(seconds),
        Err(reason) => {
            let mut e: String = "unable to parse date '".to_owned();
            e.append(text);
            e.append("': ");
            e.append(reason.as_str());
            Err(e)
        },
    }
}

/// The Unix time of a text of the form `YYYY-MM-DDThh:mm:ss`, or what is said of a date or a time
/// that does not exist.
pub open spec fn calendar_time(text: Seq<char>) -> Result<i64, Seq<char>> {
    if time_exists(text) {
        Ok(seconds_since_epoch(text) as i64)
    } else {
        Err("unable to parse date '"@ + text + "': "@ + "input is out of range"@)
    }
}

/// Reads a point in time and returns its Unix time.
pub fn read_time(text: &str) -> (r: Result<i64, String>)
    ensures
        agrees(r, time_or_error(text@, chrono_seconds(text@, TIME_FORMAT@))),
        is_time_text(text@) ==> agrees(r, calendar_time(text@)),
        is_time_text(text@) && time_exists(text@) ==> r == Ok::<i64, String>(
            seconds_since_epoch(text@) as i64,
        ),
{
    explain_time(text, parse_utc(text, TIME_FORMAT))
}

/// The first of January 1970 is day zero, and each date has the number of the date before it plus
/// one, over the ends of months and years too.
pub proof fn law_days_are_consecutive(year: int, month: int, day: int)
    requires
        1 <= month <= 12,
        1 <= day <= days_in_month(year, month),
    ensures
        days_since_epoch(1970, 1, 1) == 0,
        day < days_in_month(year, month) ==> days_since_epoch(year, month, day + 1)
            == days_since_epoch(year, month, day) + 1,
        day == days_in_month(year, month) && month < 12 ==> days_since_epoch(year, month + 1, 1)
            == days_since_epoch(year, month, day) + 1,
        day == days_in_month(year, month) && month == 12 ==> days_since_epoch(year + 1, 1, 1)
            == days_since_epoch(year, month, day) + 1,
{
    reveal_with_fuel(days_before_month, 13);
    lemma_leap_days(year);
}

/// The lengths of the months. February has 29 days in the years that four divides, but of the
/// years that a hundred divides only in those that four hundred divides.
pub proof fn law_lengths_of_the_months(year: int, month: int)
    requires
        1 <= month <= 12,
    ensures
        month != 2 ==> days_in_month(year, month) == seq![
            31int,
            28,
            31,
            30,
            31,
            30,
            31,
            31,
            30,
            31,
            30,
            31,
        ][month - 1],
        days_in_month(year, 2) == 28 || days_in_month(year, 2) == 29,
        year % 4 != 0 ==> days_in_month(year, 2) == 28,
        year % 4 == 0 && year % 100 != 0 ==> days_in_month(year, 2) == 29,
        year % 100 == 0 && year % 400 != 0 ==> days_in_month(year, 2) == 28,
        year % 400 == 0 ==> days_in_month(year, 2) == 29,
{
}

/// A year has 365 or 366 days, and the calendar repeats itself after four hundred years.
pub proof fn law_lengths_of_the_years(year: int)
    ensures
        days_since_epoch(year + 1, 1, 1) - days_since_epoch(year, 1, 1) == 337 + days_in_month(
            year,
            2,
        ),
        days_since_epoch(year + 400, 1, 1) - days_since_epoch(year, 1, 1) == 146097,
{
    lemma_leap_days(year);
    let y = year - 1;
    vstd::arithmetic::div_mod::lemma_hoist_over_denominator(y, 100, 4);
    vstd::arithmetic::div_mod::lemma_hoist_over_denominator(y, 4, 100);
    vstd::arithmetic::div_mod::lemma_hoist_over_denominator(y, 1, 400);
    assert(days_before_year(year + 400) - days_before_year(year) == 146097);
    assert(days_before_month(year, 1) == 0);
    assert(days_before_month(year + 1, 1) == 0);
    assert(days_before_month(year + 400, 1) == 0);
}

/// A leap year is one day longer than another year.
proof fn lemma_leap_days(year: int)
    ensures
        days_before_year(year + 1) - days_before_year(year) == 365 + (if is_leap_year(year) {
            1int
        } else {
            0
        }),
{
    lemma_quotient_step(year, 4);
    lemma_quotient_step(year, 100);
    lemma_quotient_step(year, 400);
    lemma_divisors(year);
}

/// From one number to the next a quotient grows only where the divisor divides.
proof fn lemma_quotient_step(n: int, d: int)
    requires
        d > 1,
    ensures
        n % d == 0 ==> n / d == (n - 1) / d + 1,
        n % d != 0 ==> n / d == (n - 1) / d,
{
    let (q, r) = (n / d, n % d);
    vstd::arithmetic::div_mod::lemma_fundamental_div_mod(n, d);
    if r == 0 {
        assert(n - 1 == (q - 1) * d + (d - 1)) by (nonlinear_arith)
            requires
                n == d * q,
        ;
        vstd::arithmetic::div_mod::lemma_fundamental_div_mod_converse(n - 1, d, q - 1, d - 1);
    } else {
        assert(n - 1 == q * d + (r - 1)) by (nonlinear_arith)
            requires
                n == d * q + r,
        ;
        vstd::arithmetic::div_mod::lemma_mod_bound(n, d);
        vstd::arithmetic::div_mod::lemma_fundamental_div_mod_converse(n - 1, d, q, r - 1);
    }
}

proof fn lemma_divisors(year: int)
    ensures
        year % 400 == 0 ==> year % 100 == 0,
        year % 100 == 0 ==> year % 4 == 0,
{
    if year % 400 == 0 {
        vstd::arithmetic::div_mod::lemma_mod_multiples_basic(4 * (year / 400), 100);
    }
    if year % 100 == 0 {
        vstd::arithmetic::div_mod::lemma_mod_multiples_basic(25 * (year / 100), 4);
    }
}

/// The two digits of a number below a hundred.
pub open spec fn two_digits(n: nat) -> Seq<char> {
    seq![digit_char(n / 10), digit_char(n % 10)]
}

/// A point in time as it is written.
pub open spec fn written_time(
    year: nat,
    month: nat,
    day: nat,
    hour: nat,
    minute: nat,
    second: nat,
) -> Seq<char> {
    two_digits(year / 100) + two_digits(year % 100) + seq!['-'] + two_digits(month) + seq!['-']
        + two_digits(day) + seq!['T'] + two_digits(hour) + seq![':'] + two_digits(minute) + seq![
        ':',
    ] + two_digits(second)
}

proof fn lemma_two_digits(n: nat)
    requires
        n < 100,
    ensures
        digits_value(two_digits(n)) == n,
        is_digit(two_digits(n)[0]),
        is_digit(two_digits(n)[1]),
{
    reveal_with_fuel(digits_value, 3);
    assert(two_digits(n).drop_last() =~= seq![digit_char(n / 10)]);
    assert(seq![digit_char(n / 10)].drop_last() =~= Seq::empty());
}

/// A time that is written is read back: it exists exactly when its month, day, hour, minute and
/// second do, and its Unix time counts the days, hours, minutes and seconds since 1970, a leap
/// second as the second before it. A time that does not exist is reported.
pub proof fn law_written_time_is_read_back(
    year: nat,
    month: nat,
    day: nat,
    hour: nat,
    minute: nat,
    second: nat,
)
    requires
        year < 10000,
        month < 100,
        day < 100,
        hour < 100,
        minute < 100,
        second < 100,
    ensures
        ({
            let text = written_time(year, month, day, hour, minute, second);
            let exists_in_calendar = {
                &&& 1 <= month <= 12
                &&& 1 <= day <= days_in_month(year as int, month as int)
                &&& hour <= 23
                &&& minute <= 59
                &&& second <= 60
            };
            &&& is_time_text(text)
            &&& time_exists(text) <==> exists_in_calendar
            &&& seconds_since_epoch(text) == days_since_epoch(
                year as int,
                month as int,
                day as int,
            ) * 86400 + hour * 3600 + minute * 60 + (if second == 60 {
                59int
            } else {
                second as int
            })
            &&& exists_in_calendar ==> calendar_time(text) == Ok::<i64, Seq<char>>(
                seconds_since_epoch(text) as i64,
            )
            &&& !exists_in_calendar ==> calendar_time(text) == Err::<i64, Seq<char>>(
                "unable to parse date '"@ + text + "': "@ + "input is out of range"@,
            )
        }),
{
    let text = written_time(year, month, day, hour, minute, second);
    lemma_two_digits(year / 100);
    lemma_two_digits(year % 100);
    lemma_two_digits(month);
    lemma_two_digits(day);
    lemma_two_digits(hour);
    lemma_two_digits(minute);
    lemma_two_digits(second);
    let (century, rest) = (two_digits(year / 100), two_digits(year % 100));
    assert(text.len() == 19);
    assert(text.subrange(0, 4) =~= century + rest);
    assert(digits_value(century + rest) == 100 * digits_value(century) + digits_value(rest)) by {
        reveal_with_fuel(digits_value, 3);
        assert((century + rest).drop_last() =~= century.push(rest[0]));
        assert(century.push(rest[0]).drop_last() =~= century);
        assert(rest.drop_last() =~= seq![rest[0]]);
        assert(seq![rest[0]].drop_last() =~= Seq::empty());
    }
    assert(text.subrange(5, 7) =~= two_digits(month));
    assert(text.subrange(8, 10) =~= two_digits(day));
    assert(text.subrange(11, 13) =~= two_digits(hour));
    assert(text.subrange(14, 16) =~= two_digits(minute));
    assert(text.subrange(17, 19) =~= two_digits(second));
    assert(is_time_text(text)) by {
        assert(text[0] == century[0] && text[1] == century[1]);
        assert(text[2] == rest[0] && text[3] == rest[1]);
        assert(text[5] == two_digits(month)[0] && text[6] == two_digits(month)[1]);
        assert(text[8] == two_digits(day)[0] && text[9] == two_digits(day)[1]);
        assert(text[11] == two_digits(hour)[0] && text[12] == two_digits(hour)[1]);
        assert(text[14] == two_digits(minute)[0] && text[15] == two_digits(minute)[1]);
        assert(text[17] == two_digits(second)[0] && text[18] == two_digits(second)[1]);
    }
}

/// What the date parser reads is returned as it is, and its errors are returned with the text.
pub proof fn law_times_are_not_altered(text: Seq<char>, seconds: i64, reason: Seq<char>)
    ensures
        time_or_error(text, Ok(seconds)) == Ok::<i64, Seq<char>>(seconds),
        time_or_error(text, Err(reason)) == Err::<i64, Seq<char>>(
            "unable to parse date '"@ + text + "': "@ + reason,
        ),
{
}

} // verus!
