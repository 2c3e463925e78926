use gerust::precondition::{
    etag_named, is_star, lists_etag, parse_entity_tag, parse_http_date, parse_length, trim,
};

fn chars(text: &str) -> Vec<char> {
    text.chars().collect()
}

#[test]
fn the_example_date_is_read_to_the_second() {
    assert_eq!(parse_http_date("Sun, 06 Nov 1994 08:49:37 GMT"), Some(784111777));
}

#[test]
fn dates_are_counted_from_1970() {
    assert_eq!(parse_http_date("Thu, 01 Jan 1970 00:00:00 GMT"), Some(0));
    assert_eq!(parse_http_date("Thu, 01 Jan 1970 00:00:01 GMT"), Some(1));
    assert_eq!(parse_http_date("Thu, 01 Jan 1970 23:59:59 GMT"), Some(86399));
    assert_eq!(parse_http_date("Fri, 02 Jan 1970 00:00:00 GMT"), Some(86400));
    assert_eq!(parse_http_date("Sun, 01 Feb 1970 00:00:00 GMT"), Some(31 * 86400));
    assert_eq!(parse_http_date("Fri, 01 Jan 1971 00:00:00 GMT"), Some(365 * 86400));
    assert_eq!(parse_http_date("Sat, 01 Jan 2000 00:00:00 GMT"), Some(946684800));
    assert_eq!(parse_http_date("Mon, 01 Jan 2024 00:00:00 GMT"), Some(1704067200));
    assert_eq!(parse_http_date("Fri, 31 Dec 9999 23:59:59 GMT"), Some(253402300799));
}

#[test]
fn leap_years_have_a_day_more() {
    assert_eq!(parse_http_date("Tue, 29 Feb 2000 12:00:00 GMT"), Some(951825600));
    assert_eq!(parse_http_date("Wed, 01 Mar 2000 00:00:00 GMT"), Some(951868800));
    assert_eq!(parse_http_date("Thu, 29 Feb 2024 00:00:00 GMT"), Some(1709164800));
    assert_eq!(parse_http_date("Wed, 29 Feb 2023 00:00:00 GMT"), None);
    assert_eq!(parse_http_date("Thu, 29 Feb 2100 00:00:00 GMT"), None);
    assert_eq!(parse_http_date("Mon, 01 Mar 2100 00:00:00 GMT"), Some(4107542400));
}

#[test]
fn what_is_no_date_is_refused() {
    for text in [
        "",
        "Sun, 06 Nov 1994 08:49:37",
        "Sun, 06 Nov 1994 08:49:37 UTC",
        "Sun, 06 Nov 1994 08:49:37 GMT ",
        "sun, 06 Nov 1994 08:49:37 GMT",
        "Sun, 06 nov 1994 08:49:37 GMT",
        "Sun 06 Nov 1994 08:49:37 GMT ",
        "Sun, 6 Nov 1994 08:49:37 GMT",
        "Sun, 00 Nov 1994 08:49:37 GMT",
        "Sun, 31 Nov 1994 08:49:37 GMT",
        "Sun, 32 Jan 1994 08:49:37 GMT",
        "Sun, 06 Nov 1969 08:49:37 GMT",
        "Sun, 06 Nov 1994 24:00:00 GMT",
        "Sun, 06 Nov 1994 08:60:37 GMT",
        "Sun, 06 Nov 1994 08:49:60 GMT",
        "Sun, 06 Nov 1994 08-49-37 GMT",
        "Sun, 0x Nov 1994 08:49:37 GMT",
        "Sun, 06 Nov 1994 08:49:37 gmt",
        "Sun, 06 Nov 1994  8:49:37 GMT",
        "Sunday, 06-Nov-1994 08:49:37 GMT",
        "Sun, 06-Nov-94 08:49:37 GMT",
        "Someday, 06-Nov-94 08:49:37 GMT",
        "sunday, 06-Nov-94 08:49:37 GMT",
        "Sunday, 06-Nov-94 08:49:37",
        "Sunday, 31-Nov-94 08:49:37 GMT",
        "Sunday,06-Nov-94 08:49:37 GMT",
        "Sun Nov 6 08:49:37 1994",
        "Sun Nov 06 08:49:37 94",
        "Sun Nov  6 08:49:37 1994 GMT",
        "Sun Nov  0 08:49:37 1994",
        "Sun Nov  6 08:49:37 1969",
        "Sun Nov 6  08:49:37 1994",
    ] {
        assert_eq!(parse_http_date(text), None);
    }
}

#[test]
fn lengths_are_decimal_numbers() {
    assert_eq!(parse_length("0"), Some(0));
    assert_eq!(parse_length("7"), Some(7));
    assert_eq!(parse_length("0042"), Some(42));
    assert_eq!(parse_length("1234567890"), Some(1234567890));
    assert_eq!(parse_length("18446744073709551615"), Some(u64::MAX));
    assert_eq!(parse_length("18446744073709551616"), None);
    assert_eq!(parse_length("99999999999999999999999"), None);
    assert_eq!(parse_length(""), None);
    assert_eq!(parse_length(" 7"), None);
    assert_eq!(parse_length("7 "), None);
    assert_eq!(parse_length("+7"), None);
    assert_eq!(parse_length("-7"), None);
    assert_eq!(parse_length("7.0"), None);
    assert_eq!(parse_length("0x10"), None);
}

#[test]
fn entity_tags_are_found_in_lists() {
    assert!(lists_etag("\"v1\"", "v1"));
    assert!(lists_etag("\"v0\", \"v1\"", "v1"));
    assert!(lists_etag("\"v0\" ,\t\"v1\" , \"v2\"", "v1"));
    assert!(lists_etag("W/\"v1\"", "v1"));
    assert!(lists_etag("\"\"", ""));
    assert!(!lists_etag("\"v1\"", "v2"));
    assert!(!lists_etag("\"v1\"", "V1"));
    assert!(!lists_etag("v1", "v1"));
    assert!(!lists_etag("\"v1", "v1"));
    assert!(!lists_etag("w/\"v1\"", "v1"));
    assert!(!lists_etag("", "v1"));
    assert!(!lists_etag("*", "v1"));
    assert!(!lists_etag("\"v1\"", "\"v1\""));
}

#[test]
fn entity_tags_are_read_without_their_quotes() {
    assert_eq!(parse_entity_tag(&chars("\"abc\"")), Some(chars("abc")));
    assert_eq!(parse_entity_tag(&chars("  W/\"abc\" ")), Some(chars("abc")));
    assert_eq!(parse_entity_tag(&chars("\"\"")), Some(chars("")));
    assert_eq!(parse_entity_tag(&chars("abc")), None);
    assert_eq!(parse_entity_tag(&chars("\"")), None);
    assert_eq!(parse_entity_tag(&chars("W/")), None);
    assert_eq!(parse_entity_tag(&chars("")), None);
}

#[test]
fn the_wildcard_is_recognised() {
    assert!(is_star("*"));
    assert!(is_star("  * \t"));
    assert!(!is_star("**"));
    assert!(!is_star("\"*\""));
    assert!(!is_star(""));
    assert!(!is_star("*, \"v1\""));
}

#[test]
fn blanks_are_trimmed_at_both_ends() {
    assert_eq!(trim(&chars("  a b \t")), chars("a b"));
    assert_eq!(trim(&chars("ab")), chars("ab"));
    assert_eq!(trim(&chars(" \t ")), chars(""));
    assert_eq!(trim(&chars("")), chars(""));
    assert_eq!(trim(&chars("\na\n")), chars("\na\n"));
}

#[test]
fn a_tag_is_named_only_where_both_sides_have_one() {
    assert!(etag_named(Some("\"a\", \"b\""), Some("b")));
    assert!(!etag_named(Some("\"a\", \"b\""), Some("c")));
    assert!(!etag_named(Some("\"a\""), None));
    assert!(!etag_named(None, Some("a")));
    assert!(!etag_named(None, None));
}

#[test]
fn the_older_formats_of_dates_are_read_too() {
    assert_eq!(parse_http_date("Sunday, 06-Nov-94 08:49:37 GMT"), Some(784111777));
    assert_eq!(parse_http_date("Sun Nov  6 08:49:37 1994"), Some(784111777));
    assert_eq!(parse_http_date("Sun Nov 06 08:49:37 1994"), Some(784111777));
    assert_eq!(parse_http_date("Wednesday, 01-Mar-00 00:00:00 GMT"), Some(951868800));
    assert_eq!(parse_http_date("Thursday, 01-Jan-70 00:00:00 GMT"), Some(0));
    assert_eq!(parse_http_date("Tuesday, 31-Dec-69 23:59:59 GMT"), Some(3155759999));
    assert_eq!(parse_http_date("Thu Jan  1 00:00:00 1970"), Some(0));
    assert_eq!(parse_http_date("Mon Jan  1 00:00:00 2024"), Some(1704067200));
    assert_eq!(parse_http_date("Thu Feb 29 00:00:00 2024"), Some(1709164800));
}
