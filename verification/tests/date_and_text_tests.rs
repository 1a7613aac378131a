//! Dates, their field texts, and the plain text helpers.

use cio::date::{parse_mdy, utc_timestamp_text, Date};
use cio::journal_clubs::parse_date_field;
use cio::strutil;

fn chars(s: &str) -> Vec<char> {
    strutil::chars_of(s)
}

fn text(v: &Vec<char>) -> String {
    strutil::string_of(v)
}

#[test]
fn formats_dates_zero_padded() {
    let d = Date { year: 2020, month: 4, day: 22 };
    assert_eq!(d.mdy(), "04/22/2020");
    assert_eq!(d.field_text(), "04/22/2020");
}

#[test]
fn unset_date_writes_an_empty_field() {
    assert_eq!(Date::unset().mdy(), "01/01/1969");
    assert_eq!(Date::unset().field_text(), "");
}

#[test]
fn parses_padded_and_unpadded_dates() {
    assert_eq!(parse_mdy(&chars("04/22/2020")), Some(Date { year: 2020, month: 4, day: 22 }));
    assert_eq!(parse_mdy(&chars("4/2/2020")), Some(Date { year: 2020, month: 4, day: 2 }));
    assert_eq!(parse_mdy(&chars("01/01/1969")), Some(Date { year: 1969, month: 1, day: 1 }));
    // short year runs name the early proleptic years
    assert_eq!(parse_mdy(&chars("4/22/20")), Some(Date { year: 20, month: 4, day: 22 }));
    assert_eq!(parse_mdy(&chars("4/22/1")), Some(Date { year: 1, month: 4, day: 22 }));
}

#[test]
fn rejects_dates_that_do_not_exist() {
    assert_eq!(parse_mdy(&chars("02/30/2020")), None);
    assert_eq!(parse_mdy(&chars("13/01/2020")), None);
    assert_eq!(parse_mdy(&chars("00/10/2020")), None);
    assert_eq!(parse_mdy(&chars("02/29/2019")), None);
    assert_eq!(parse_mdy(&chars("02/29/2020")), Some(Date { year: 2020, month: 2, day: 29 }));
    assert_eq!(parse_mdy(&chars("4-22-2020")), None);
    assert_eq!(parse_mdy(&chars("")), None);
    // the grammar is digits and slashes only: no signs, blanks or year zero
    assert_eq!(parse_mdy(&chars("04/22/+200")), None);
    assert_eq!(parse_mdy(&chars("04/22/ 200")), None);
    assert_eq!(parse_mdy(&chars("04/22/0000")), None);
    assert_eq!(parse_mdy(&chars("04/22/20201")), None);
}

#[test]
fn blank_date_field_reads_back_as_unset() {
    assert_eq!(parse_date_field(&"  ".to_string()), Some(Date::unset()));
    assert_eq!(parse_date_field(&"".to_string()), Some(Date::unset()));
    assert_eq!(
        parse_date_field(&"04/22/2020".to_string()),
        Some(Date { year: 2020, month: 4, day: 22 })
    );
    // stray blanks around an otherwise good field are trimmed away
    assert_eq!(
        parse_date_field(&" 04/22/2020 ".to_string()),
        Some(Date { year: 2020, month: 4, day: 22 })
    );
    assert_eq!(parse_date_field(&"not a date".to_string()), None);
}

#[test]
fn renders_civil_utc_timestamps() {
    assert_eq!(utc_timestamp_text(0), "1970-01-01 00:00:00 UTC");
    assert_eq!(utc_timestamp_text(-1), "1969-12-31 23:59:59 UTC");
    assert_eq!(utc_timestamp_text(1582934400), "2020-02-29 00:00:00 UTC");
    assert_eq!(utc_timestamp_text(1587608604), "2020-04-23 02:23:24 UTC");
    assert_eq!(utc_timestamp_text(951821999), "2000-02-29 10:59:59 UTC");
    // a century year that is no leap year
    assert_eq!(utc_timestamp_text(-2208988800), "1900-01-01 00:00:00 UTC");
}

#[test]
fn trims_and_lower_cases() {
    let t = strutil::trim(&chars("  \thello \r\n"));
    assert_eq!(text(&t), "hello");
    let l = strutil::to_lower(&chars("MiXeD 123!"));
    assert_eq!(text(&l), "mixed 123!");
}

#[test]
fn finds_substrings() {
    assert!(strutil::contains_str(&chars("the next steps are"), "next steps"));
    assert!(!strutil::contains_str(&chars("nothing here"), "next steps"));
    assert!(strutil::contains_str(&chars("abc"), ""));
}

#[test]
fn replaces_left_to_right_without_overlap() {
    let r = strutil::replace(&chars("aaaa"), &chars("aa"), &chars("b"));
    assert_eq!(text(&r), "bb");
    let r2 = strutil::replace(&chars("x_y_z"), &chars("_"), &chars("--"));
    assert_eq!(text(&r2), "x--y--z");
}

#[test]
fn strips_repeated_prefixes_and_suffixes() {
    let r = strutil::strip_prefix_all(&chars("@@user"), &chars("@"));
    assert_eq!(text(&r), "user");
    let r2 = strutil::strip_suffix_all(&chars("path///"), &chars("/"));
    assert_eq!(text(&r2), "path");
}

#[test]
fn writes_decimal_numbers() {
    assert_eq!(cio::strutil::u64_string(0), "0");
    assert_eq!(cio::strutil::u64_string(9000), "9000");
    let padded = strutil::zero_pad(&chars("23"), 4);
    assert_eq!(text(&padded), "0023");
}
