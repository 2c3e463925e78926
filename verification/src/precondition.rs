//! What conditional requests are decided on: entity tags in `If-Match` and
//! `If-None-Match`, dates in `If-Modified-Since` and `If-Unmodified-Since`,
//! and the length that `Content-Length` announces.

use vstd::prelude::*;
use crate::conneg::pieces;
use crate::text::{
    chars_of, decimal_value, digit_value, digits_only, find_char, find_char_from,
    lemma_decimal_value_bound, lemma_decimal_value_grows, lemma_pow10_values, pow10,
    read_digits, skip_blanks_from, slice_of, trim_end_at, trimmed,
};

verus! {

/// Whether the text is made of decimal digits, at least one.
pub open spec fn all_digits(s: Seq<char>) -> bool {
    s.len() > 0 && digits_only(s)
}

/// The length that a `Content-Length` value announces: decimal digits and
/// nothing else, no more than a `u64` holds.
pub open spec fn announced_length(s: Seq<char>) -> Option<nat> {
    if all_digits(s) && decimal_value(s, s.len() as int) <= u64::MAX {
        Some(decimal_value(s, s.len() as int))
    } else {
        None
    }
}

/// Reads the value of a `Content-Length` header.
pub fn parse_length(value: &str) -> (r: Option<u64>)
    ensures
        match r {
            Some(n) => announced_length(value@) == Some(n as nat),
            None => announced_length(value@) is None,
        },
{
    let s = chars_of(value);
    if s.len() == 0 {
        return None;
    }
    let mut acc: u64 = 0;
    let mut i: usize = 0;
    while i < s.len()
        invariant
            s@ == value@,
            i <= s.len(),
            acc == decimal_value(s@, i as int),
            forall|k: int| 0 <= k < i ==> digit_value(#[trigger] s@[k]) is Some,
        decreases s.len() - i,
    {
        let c = s[i];
        if !('0' <= c && c <= '9') {
            return None;
        }
        let d: u64 = (c as u8 - 48u8) as u64;
        if acc > (u64::MAX - d) / 10 {
            proof {
                assert(decimal_value(s@, i as int + 1) > u64::MAX);
                lemma_decimal_value_grows(s@, i as int + 1, s@.len() as int);
            }
            return None;
        }
        acc = acc * 10 + d;
        i += 1;
    }
    Some(acc)
}

/// Whether a header value is the wildcard `*`, blanks around it aside.
pub open spec fn is_wildcard(value: Seq<char>) -> bool {
    trimmed(value) == seq!['*']
}

/// The entity tag that one element of a list denotes: a quoted text,
/// optionally marked weak by `W/` before it. Blanks around it are skipped.
pub open spec fn entity_tag_of(piece: Seq<char>) -> Option<Seq<char>> {
    let t = trimmed(piece);
    let u = if t.len() >= 2 && t[0] == 'W' && t[1] == '/' {
        t.subrange(2, t.len() as int)
    } else {
        t
    };
    if u.len() >= 2 && u[0] == '"' && u[u.len() - 1] == '"' {
        Some(u.subrange(1, u.len() - 1))
    } else {
        None
    }
}

/// Whether a list of entity tags, separated by commas, names `tag`.
pub open spec fn etag_listed(list: Seq<char>, tag: Seq<char>) -> bool {
    let ps = pieces(list, ',', 0);
    exists|i: int| 0 <= i < ps.len() && entity_tag_of(#[trigger] ps[i]) == Some(tag)
}

/// `s` without the blanks at either end.
pub fn trim(s: &Vec<char>) -> (r: Vec<char>)
    ensures
        r@ == trimmed(s@),
{
    let a = skip_blanks_from(s, 0);
    let b = trim_end_at(s, a, s.len());
    slice_of(s, a, b)
}

/// Whether a header value is the wildcard `*`.
pub fn is_star(value: &str) -> (r: bool)
    ensures
        r == is_wildcard(value@),
{
    let s = chars_of(value);
    let t = trim(&s);
    let r = t.len() == 1 && t[0] == '*';
    assert(r == (t@ =~= seq!['*']));
    r
}

/// Reads the entity tag of one element of a list.
pub fn parse_entity_tag(piece: &Vec<char>) -> (r: Option<Vec<char>>)
    ensures
        match r {
            Some(tag) => entity_tag_of(piece@) == Some(tag@),
            None => entity_tag_of(piece@) is None,
        },
{
    let t = trim(piece);
    let from: usize = if t.len() >= 2 && t[0] == 'W' && t[1] == '/' {
        2
    } else {
        0
    };
    let u = slice_of(&t, from, t.len());
    if u.len() >= 2 && u[0] == '"' && u[u.len() - 1] == '"' {
        Some(slice_of(&u, 1, u.len() - 1))
    } else {
        None
    }
}

fn same_chars(a: &Vec<char>, b: &Vec<char>) -> (r: bool)
    ensures
        r == (a@ == b@),
{
    if a.len() != b.len() {
        return false;
    }
    let mut i: usize = 0;
    while i < a.len()
        invariant
            a.len() == b.len(),
            i <= a.len(),
            forall|k: int| 0 <= k < i ==> a@[k] == b@[k],
        decreases a.len() - i,
    {
        if a[i] != b[i] {
            return false;
        }
        i += 1;
    }
    assert(a@ =~= b@);
    true
}

/// Whether the value of an `If-Match` or `If-None-Match` header names the
/// entity tag `tag`.
pub fn lists_etag(list: &str, tag: &str) -> (r: bool)
    ensures
        r == etag_listed(list@, tag@),
{
    let chars = chars_of(list);
    let wanted = chars_of(tag);
    let n = chars.len();
    let mut start: usize = 0;
    let ghost all = pieces(list@, ',', 0);
    let ghost mut done: Seq<Seq<char>> = Seq::empty();
    loop
        invariant
            chars@ == list@,
            wanted@ == tag@,
            n == chars.len(),
            start <= n,
            all == pieces(list@, ',', 0),
            all == done + pieces(list@, ',', start as int),
            forall|i: int| 0 <= i < done.len() ==> entity_tag_of(#[trigger] done[i]) != Some(tag@),
        decreases n - start,
    {
        let end = find_char_from(&chars, ',', start);
        let piece = slice_of(&chars, start, end);
        let ghost rest = pieces(list@, ',', start as int);
        assert(rest[0] == piece@);
        assert(all[done.len() as int] == piece@);
        match parse_entity_tag(&piece) {
            Some(found) => {
                if same_chars(&found, &wanted) {
                    return true;
                }
            },
            None => {},
        }
        proof {
            done = done.push(piece@);
        }
        if end >= n {
            assert(rest =~= seq![piece@]);
            assert(all =~= done);
            return false;
        }
        assert(rest =~= seq![piece@] + pieces(list@, ',', end as int + 1));
        assert(all =~= done + pieces(list@, ',', end as int + 1));
        start = end + 1;
    }
}

/// Whether a request names the entity tag of the resource: it carries
/// the header, the resource has a tag, and the header lists the tag.
pub open spec fn names_etag(list: Option<Seq<char>>, tag: Option<Seq<char>>) -> bool {
    match (list, tag) {
        (Some(l), Some(t)) => etag_listed(l, t),
        _ => false,
    }
}

/// Whether the header of a request names the entity tag of the resource.
pub fn etag_named(list: Option<&str>, tag: Option<&str>) -> (r: bool)
    ensures
        r == names_etag(
            match list {
                Some(l) => Some(l@),
                None => None,
            },
            match tag {
                Some(t) => Some(t@),
                None => None,
            },
        ),
{
    match (list, tag) {
        (Some(l), Some(t)) => lists_etag(l, t),
        _ => false,
    }
}

/// Whether a year of the Gregorian calendar is a leap year.
pub open spec fn is_leap(year: nat) -> bool {
    (year % 4 == 0 && year % 100 != 0) || year % 400 == 0
}

/// The number of days of a month, counted from 1.
pub open spec fn days_in_month(year: nat, month: nat) -> nat {
    if month == 2 {
        if is_leap(year) {
            29
        } else {
            28
        }
    } else if month == 4 || month == 6 || month == 9 || month == 11 {
        30
    } else {
        31
    }
}

/// The number of days of the year that lie before a month.
pub open spec fn days_before_month(year: nat, month: nat) -> nat
    decreases month,
{
    if month <= 1 {
        0
    } else {
        days_before_month(year, (month - 1) as nat) + days_in_month(year, (month - 1) as nat)
    }
}

/// The number of leap years among the years 1 to `year`.
pub open spec fn leap_years_through(year: nat) -> nat {
    (year / 4 - year / 100 + year / 400) as nat
}

/// The number of days from 1970-01-01 to the first day of a year from 1970
/// on.
pub open spec fn days_before_year(year: nat) -> nat {
    (365 * (year - 1970) + leap_years_through((year - 1) as nat) - leap_years_through(1969)) as nat
}

/// The seconds from 1970-01-01 00:00:00 GMT to a point in time.
pub open spec fn seconds_since_epoch(
    year: nat,
    month: nat,
    day: nat,
    hour: nat,
    minute: nat,
    second: nat,
) -> nat {
    ((((days_before_year(year) + days_before_month(year, month) + (day - 1)) * 24 + hour) * 60
        + minute) * 60 + second) as nat
}

/// The number that the digits of `s` from `from` to `to` denote, where all
/// of them are digits.
pub open spec fn number_at(s: Seq<char>, from: int, to: int) -> Option<nat> {
    if 0 <= from < to <= s.len() && all_digits(s.subrange(from, to)) {
        Some(decimal_value(s.subrange(from, to), to - from))
    } else {
        None
    }
}

/// The month that three letters name, counted from 1.
pub open spec fn month_named(a: char, b: char, c: char) -> Option<nat> {
    if a == 'J' && b == 'a' && c == 'n' {
        Some(1)
    } else if a == 'F' && b == 'e' && c == 'b' {
        Some(2)
    } else if a == 'M' && b == 'a' && c == 'r' {
        Some(3)
    } else if a == 'A' && b == 'p' && c == 'r' {
        Some(4)
    } else if a == 'M' && b == 'a' && c == 'y' {
        Some(5)
    } else if a == 'J' && b == 'u' && c == 'n' {
        Some(6)
    } else if a == 'J' && b == 'u' && c == 'l' {
        Some(7)
    } else if a == 'A' && b == 'u' && c == 'g' {
        Some(8)
    } else if a == 'S' && b == 'e' && c == 'p' {
        Some(9)
    } else if a == 'O' && b == 'c' && c == 't' {
        Some(10)
    } else if a == 'N' && b == 'o' && c == 'v' {
        Some(11)
    } else if a == 'D' && b == 'e' && c == 'c' {
        Some(12)
    } else {
        None
    }
}

/// Whether three letters name a day of the week.
pub open spec fn names_weekday(a: char, b: char, c: char) -> bool {
    ||| a == 'M' && b == 'o' && c == 'n'
    ||| a == 'T' && b == 'u' && c == 'e'
    ||| a == 'W' && b == 'e' && c == 'd'
    ||| a == 'T' && b == 'h' && c == 'u'
    ||| a == 'F' && b == 'r' && c == 'i'
    ||| a == 'S' && b == 'a' && c == 't'
    ||| a == 'S' && b == 'u' && c == 'n'
}

/// An optional machine number as an optional natural number.
pub open spec fn opt(n: Option<u64>) -> Option<nat> {
    match n {
        Some(v) => Some(v as nat),
        None => None,
    }
}

/// The point in time that the parts of a date denote, in seconds since
/// 1970-01-01 00:00:00 GMT: a day that its month has, in a year from 1970
/// on, and a time of day up to 23:59:59. Parts that are missing or out of
/// range denote none.
pub open spec fn moment(
    day: Option<nat>,
    month: Option<nat>,
    year: Option<nat>,
    hour: Option<nat>,
    minute: Option<nat>,
    second: Option<nat>,
) -> Option<nat> {
    match (day, month, year, hour, minute, second) {
        (Some(day), Some(month), Some(year), Some(hour), Some(minute), Some(second)) => {
            if year >= 1970 && 1 <= day <= days_in_month(year, month) && hour <= 23 && minute
                <= 59 && second <= 59 {
                Some(seconds_since_epoch(year, month, day, hour, minute, second))
            } else {
                None
            }
        },
        _ => None,
    }
}

/// Whether a time of day and the zone stand at `at` as all formats have
/// them but for the zone: `08:49:37`, between blanks.
pub open spec fn clock_layout(s: Seq<char>, at: int) -> bool {
    &&& 1 <= at && at + 9 <= s.len()
    &&& s[at - 1] == ' '
    &&& s[at + 2] == ':'
    &&& s[at + 5] == ':'
    &&& s[at + 8] == ' '
}

/// Whether `GMT` stands at `at`, at the end of the text.
pub open spec fn zone_layout(s: Seq<char>, at: int) -> bool {
    &&& 0 <= at && at + 3 == s.len()
    &&& s[at] == 'G'
    &&& s[at + 1] == 'M'
    &&& s[at + 2] == 'T'
}

/// A date in the preferred format, `Sun, 06 Nov 1994 08:49:37 GMT`.
pub open spec fn fixed_date(s: Seq<char>) -> Option<nat> {
    if s.len() == 29 && names_weekday(s[0], s[1], s[2]) && s[3] == ',' && s[4] == ' ' && s[7]
        == ' ' && s[11] == ' ' && clock_layout(s, 17) && zone_layout(s, 26) {
        moment(
            number_at(s, 5, 7),
            month_named(s[8], s[9], s[10]),
            number_at(s, 12, 16),
            number_at(s, 17, 19),
            number_at(s, 20, 22),
            number_at(s, 23, 25),
        )
    } else {
        None
    }
}

/// Whether a text is the full name of a day of the week.
pub open spec fn names_long_weekday(t: Seq<char>) -> bool {
    ||| t == "Monday"@
    ||| t == "Tuesday"@
    ||| t == "Wednesday"@
    ||| t == "Thursday"@
    ||| t == "Friday"@
    ||| t == "Saturday"@
    ||| t == "Sunday"@
}

/// The year that two digits stand for: one from 1970 to 2069.
pub open spec fn year_of_two_digits(yy: Option<nat>) -> Option<nat> {
    match yy {
        Some(y) => if y >= 70 {
            Some(1900 + y)
        } else {
            Some(2000 + y)
        },
        None => None,
    }
}

/// A date in the older format with dashes, `Sunday, 06-Nov-94 08:49:37
/// GMT`.
pub open spec fn dashed_date(s: Seq<char>) -> Option<nat> {
    let c = find_char(s, ',', 0);
    if names_long_weekday(s.subrange(0, c)) && s.len() == c + 24 && s[c + 1] == ' ' && s[c + 4]
        == '-' && s[c + 8] == '-' && clock_layout(s, c + 12) && zone_layout(s, c + 21) {
        moment(
            number_at(s, c + 2, c + 4),
            month_named(s[c + 5], s[c + 6], s[c + 7]),
            year_of_two_digits(number_at(s, c + 9, c + 11)),
            number_at(s, c + 12, c + 14),
            number_at(s, c + 15, c + 17),
            number_at(s, c + 18, c + 20),
        )
    } else {
        None
    }
}

/// A date in the format of `asctime`, `Sun Nov  6 08:49:37 1994`, where a
/// day of one digit has a blank before it.
pub open spec fn plain_date(s: Seq<char>) -> Option<nat> {
    if s.len() == 24 && names_weekday(s[0], s[1], s[2]) && s[3] == ' ' && s[7] == ' '
        && clock_layout(s, 11) {
        moment(
            if s[8] == ' ' {
                number_at(s, 9, 10)
            } else {
                number_at(s, 8, 10)
            },
            month_named(s[4], s[5], s[6]),
            number_at(s, 20, 24),
            number_at(s, 11, 13),
            number_at(s, 14, 16),
            number_at(s, 17, 19),
        )
    } else {
        None
    }
}

/// The point in time that a date of a header denotes, in seconds since
/// 1970-01-01 00:00:00 GMT, in any of the three formats of HTTP. Any other
/// text is no date.
pub open spec fn http_date(s: Seq<char>) -> Option<nat> {
    match fixed_date(s) {
        Some(t) => Some(t),
        None => match dashed_date(s) {
            Some(t) => Some(t),
            None => plain_date(s),
        },
    }
}

/// Reads the decimal number that stands in `s[from..to]`, of one to four
/// digits.
fn digits_at(s: &Vec<char>, from: usize, to: usize) -> (r: Option<u64>)
    requires
        from < to <= s.len(),
        to - from <= 4,
    ensures
        match r {
            Some(n) => number_at(s@, from as int, to as int) == Some(n as nat) && n <= 9999 && n
                < pow10((to - from) as nat),
            None => number_at(s@, from as int, to as int) is None,
        },
{
    proof {
        lemma_pow10_values();
        lemma_decimal_value_bound(s@.subrange(from as int, to as int), to - from);
    }
    read_digits(s, from, to)
}

fn month_of(a: char, b: char, c: char) -> (r: Option<u64>)
    ensures
        match r {
            Some(m) => month_named(a, b, c) == Some(m as nat) && 1 <= m <= 12,
            None => month_named(a, b, c) is None,
        },
{
    if a == 'J' && b == 'a' && c == 'n' {
        Some(1)
    } else if a == 'F' && b == 'e' && c == 'b' {
        Some(2)
    } else if a == 'M' && b == 'a' && c == 'r' {
        Some(3)
    } else if a == 'A' && b == 'p' && c == 'r' {
        Some(4)
    } else if a == 'M' && b == 'a' && c == 'y' {
        Some(5)
    } else if a == 'J' && b == 'u' && c == 'n' {
        Some(6)
    } else if a == 'J' && b == 'u' && c == 'l' {
        Some(7)
    } else if a == 'A' && b == 'u' && c == 'g' {
        Some(8)
    } else if a == 'S' && b == 'e' && c == 'p' {
        Some(9)
    } else if a == 'O' && b == 'c' && c == 't' {
        Some(10)
    } else if a == 'N' && b == 'o' && c == 'v' {
        Some(11)
    } else if a == 'D' && b == 'e' && c == 'c' {
        Some(12)
    } else {
        None
    }
}

fn is_weekday(a: char, b: char, c: char) -> (r: bool)
    ensures
        r == names_weekday(a, b, c),
{
    (a == 'M' && b == 'o' && c == 'n') || (a == 'T' && b == 'u' && c == 'e') || (a == 'W' && b
        == 'e' && c == 'd') || (a == 'T' && b == 'h' && c == 'u') || (a == 'F' && b == 'r' && c
        == 'i') || (a == 'S' && b == 'a' && c == 't') || (a == 'S' && b == 'u' && c == 'n')
}

fn leap_year(year: u64) -> (r: bool)
    ensures
        r == is_leap(year as nat),
{
    (year % 4 == 0 && year % 100 != 0) || year % 400 == 0
}

fn month_length(year: u64, month: u64) -> (r: u64)
    ensures
        r == days_in_month(year as nat, month as nat),
        28 <= r <= 31,
{
    if month == 2 {
        if leap_year(year) {
            29
        } else {
            28
        }
    } else if month == 4 || month == 6 || month == 9 || month == 11 {
        30
    } else {
        31
    }
}

fn month_offset(year: u64, month: u64) -> (r: u64)
    requires
        1 <= month <= 12,
    ensures
        r == days_before_month(year as nat, month as nat),
        r <= 341,
{
    let mut days: u64 = 0;
    let mut m: u64 = 1;
    while m < month
        invariant
            1 <= m <= month <= 12,
            days == days_before_month(year as nat, m as nat),
            days <= 31 * (m - 1),
        decreases month - m,
    {
        days = days + month_length(year, m);
        m += 1;
    }
    days
}

fn year_offset(year: u64) -> (r: u64)
    requires
        1970 <= year <= 9999,
    ensures
        r == days_before_year(year as nat),
        r <= 2932897,
{
    let before = year - 1;
    let leaps = before / 4 - before / 100 + before / 400;
    365 * (year - 1970) + leaps - 477
}

/// The point in time that the parts of a date denote.
fn make_moment(
    day: Option<u64>,
    month: Option<u64>,
    year: Option<u64>,
    hour: Option<u64>,
    minute: Option<u64>,
    second: Option<u64>,
) -> (r: Option<u64>)
    requires
        month matches Some(m) ==> 1 <= m <= 12,
        day matches Some(d) ==> d <= 9999,
        year matches Some(y) ==> y <= 9999,
        hour matches Some(h) ==> h <= 9999,
        minute matches Some(m) ==> m <= 9999,
        second matches Some(s) ==> s <= 9999,
    ensures
        match r {
            Some(t) => moment(opt(day), opt(month), opt(year), opt(hour), opt(minute), opt(second))
                == Some(t as nat),
            None => moment(opt(day), opt(month), opt(year), opt(hour), opt(minute), opt(second))
                is None,
        },
{
    match (day, month, year, hour, minute, second) {
        (Some(day), Some(month), Some(year), Some(hour), Some(minute), Some(second)) => {
            if year >= 1970 && 1 <= day && day <= month_length(year, month) && hour <= 23
                && minute <= 59 && second <= 59 {
                let days = year_offset(year) + month_offset(year, month) + (day - 1);
                Some(((days * 24 + hour) * 60 + minute) * 60 + second)
            } else {
                None
            }
        },
        _ => None,
    }
}

fn clock_stands(s: &Vec<char>, at: usize) -> (r: bool)
    requires
        at <= usize::MAX - 9,
    ensures
        r == clock_layout(s@, at as int),
{
    1 <= at && at + 9 <= s.len() && s[at - 1] == ' ' && s[at + 2] == ':' && s[at + 5] == ':'
        && s[at + 8] == ' '
}

fn zone_stands(s: &Vec<char>, at: usize) -> (r: bool)
    requires
        at <= usize::MAX - 3,
    ensures
        r == zone_layout(s@, at as int),
{
    at + 3 == s.len() && s[at] == 'G' && s[at + 1] == 'M' && s[at + 2] == 'T'
}

fn read_fixed_date(s: &Vec<char>) -> (r: Option<u64>)
    ensures
        match r {
            Some(t) => fixed_date(s@) == Some(t as nat),
            None => fixed_date(s@) is None,
        },
{
    if s.len() == 29 && is_weekday(s[0], s[1], s[2]) && s[3] == ',' && s[4] == ' ' && s[7] == ' '
        && s[11] == ' ' && clock_stands(s, 17) && zone_stands(s, 26) {
        make_moment(
            digits_at(s, 5, 7),
            month_of(s[8], s[9], s[10]),
            digits_at(s, 12, 16),
            digits_at(s, 17, 19),
            digits_at(s, 20, 22),
            digits_at(s, 23, 25),
        )
    } else {
        None
    }
}

fn is_long_weekday(t: &Vec<char>) -> (r: bool)
    ensures
        r == names_long_weekday(t@),
{
    same_chars(t, &chars_of("Monday")) || same_chars(t, &chars_of("Tuesday")) || same_chars(
        t,
        &chars_of("Wednesday"),
    ) || same_chars(t, &chars_of("Thursday")) || same_chars(t, &chars_of("Friday")) || same_chars(
        t,
        &chars_of("Saturday"),
    ) || same_chars(t, &chars_of("Sunday"))
}

fn read_dashed_date(s: &Vec<char>) -> (r: Option<u64>)
    ensures
        match r {
            Some(t) => dashed_date(s@) == Some(t as nat),
            None => dashed_date(s@) is None,
        },
{
    let c = find_char_from(s, ',', 0);
    if s.len() < 24 || c != s.len() - 24 {
        return None;
    }
    let name = slice_of(s, 0, c);
    if is_long_weekday(&name) && s[c + 1] == ' ' && s[c + 4] == '-' && s[c + 8] == '-'
        && clock_stands(s, c + 12) && zone_stands(s, c + 21) {
        proof {
            lemma_pow10_values();
        }
        let year = match digits_at(s, c + 9, c + 11) {
            Some(y) => if y >= 70 {
                Some(1900 + y)
            } else {
                Some(2000 + y)
            },
            None => None,
        };
        make_moment(
            digits_at(s, c + 2, c + 4),
            month_of(s[c + 5], s[c + 6], s[c + 7]),
            year,
            digits_at(s, c + 12, c + 14),
            digits_at(s, c + 15, c + 17),
            digits_at(s, c + 18, c + 20),
        )
    } else {
        None
    }
}

fn read_plain_date(s: &Vec<char>) -> (r: Option<u64>)
    ensures
        match r {
            Some(t) => plain_date(s@) == Some(t as nat),
            None => plain_date(s@) is None,
        },
{
    if s.len() == 24 && is_weekday(s[0], s[1], s[2]) && s[3] == ' ' && s[7] == ' '
        && clock_stands(s, 11) {
        let day = if s[8] == ' ' {
            digits_at(s, 9, 10)
        } else {
            digits_at(s, 8, 10)
        };
        make_moment(
            day,
            month_of(s[4], s[5], s[6]),
            digits_at(s, 20, 24),
            digits_at(s, 11, 13),
            digits_at(s, 14, 16),
            digits_at(s, 17, 19),
        )
    } else {
        None
    }
}

/// Reads the date of a header, in any of the three formats of HTTP, into
/// seconds since 1970-01-01 00:00:00 GMT.
pub fn parse_http_date(value: &str) -> (r: Option<u64>)
    ensures
        match r {
            Some(t) => http_date(value@) == Some(t as nat),
            None => http_date(value@) is None,
        },
{
    let s = chars_of(value);
    match read_fixed_date(&s) {
        Some(t) => Some(t),
        None => match read_dashed_date(&s) {
            Some(t) => Some(t),
            None => read_plain_date(&s),
        },
    }
}

} // verus!
