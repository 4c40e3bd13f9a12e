//! Text parsing: file-name dates, timestamps, numbers, languages.

use clipcat::date::{format_dmy, parse_dmy, PlainDate};
use clipcat::language::Language;
use clipcat::lines::{get_segment, get_timestamp};
use clipcat::metadata::{parse_bitrate, parse_duration, parse_size};
use clipcat::parse_date::parse;
use clipcat::text::{parse_i32, parse_u64};
use clipcat::timestamp::Timestamp;

#[test]
fn test_parse_shadowplay() {
    let title = "Counter-strike 2 2023.12.05 - 22.14.07.02.DVR.mp4";
    assert_eq!(parse(title), "05-12-2023");
}

#[test]
fn test_parse_manual() {
    let title = "10_11_23-Inferno-Retake_Clutch_AWP.mp4";
    assert_eq!(parse(title), "10-11-2023");
}

#[test]
fn test_whisper_timestamp() {
    let line = "[00:37.000 --> 00:38.000]  Ich komme bei.";
    assert_eq!(
        get_segment(line).unwrap(),
        Timestamp::from_str("00:00:37.000").unwrap()
    );
}

#[test]
fn parse_date_rejects_invalid_days() {
    // The recorder form with a month that no calendar has.
    assert_eq!(parse("Game 2 2023.13.05 - x.mp4"), "");
    // February 29 only exists in leap years.
    assert_eq!(parse("29_02_24-clip.mp4"), "29-02-2024");
    assert_eq!(parse("29_02_23-clip.mp4"), "");
    // No date at all.
    assert_eq!(parse(""), "");
    assert_eq!(parse("just-words.mp4"), "");
}

#[test]
fn timestamp_from_str_fields() {
    let t = Timestamp::from_str("1:2:3.45").unwrap();
    assert_eq!((t.hours, t.minutes, t.seconds, t.millis), (1, 2, 3, 45));
    let t = Timestamp::from_str("5").unwrap();
    assert_eq!((t.hours, t.minutes, t.seconds, t.millis), (5, 0, 0, 0));
    let t = Timestamp::from_str("5:6").unwrap();
    assert_eq!((t.hours, t.minutes, t.seconds, t.millis), (5, 6, 0, 0));
    let t = Timestamp::from_str("-1:2:3").unwrap();
    assert_eq!((t.hours, t.minutes, t.seconds, t.millis), (-1, 2, 3, 0));
    assert!(Timestamp::from_str("").is_none());
    assert!(Timestamp::from_str("a:b").is_none());
    assert!(Timestamp::from_str("1:2:3:4").is_none());
    assert!(Timestamp::from_str("1:2:3.4.5").is_none());
    assert!(Timestamp::from_str("00:00:37.000").unwrap().to_seconds() == 37);
}

#[test]
fn timestamp_text_round_trip() {
    let t = Timestamp::from_str("1:2:3.45").unwrap();
    assert_eq!(t.to_text(), "1:2:3.45");
    assert_eq!(Timestamp::from_str(&t.to_text()), Some(t));
    let z = Timestamp::from_str("0:0:0").unwrap();
    assert_eq!(z.to_text(), "0:0:0.0");
}

#[test]
fn timestamp_arithmetic() {
    let start = Timestamp::from_str("00:00:10.000").unwrap();
    let end = Timestamp::from_str("00:00:25.000").unwrap();
    let d = end.minus(&start);
    assert_eq!(d.to_seconds(), 15);
    assert_eq!(d.total_millis(), 15000);
    // Component-wise subtraction does not borrow across fields.
    let a = Timestamp::from_str("0:1:2").unwrap();
    let b = Timestamp::from_str("0:0:5").unwrap();
    let c = a.minus(&b);
    assert_eq!((c.minutes, c.seconds), (1, -3));
}

#[test]
fn timestamp_from_input_takes_first_line() {
    let lines = vec![String::from("0:0:7"), String::from("junk")];
    assert_eq!(Timestamp::from_input(&lines).unwrap().to_seconds(), 7);
    let empty: Vec<String> = Vec::new();
    assert!(Timestamp::from_input(&empty).is_none());
}

#[test]
fn integer_parsing_matches_std() {
    assert_eq!(parse_i32("042"), Some(42));
    assert_eq!(parse_i32("-7"), Some(-7));
    assert_eq!(parse_i32("+7"), Some(7));
    assert_eq!(parse_i32("2147483647"), Some(i32::MAX));
    assert_eq!(parse_i32("-2147483648"), Some(i32::MIN));
    assert_eq!(parse_i32("2147483648"), None);
    assert_eq!(parse_i32(""), None);
    assert_eq!(parse_i32("1a"), None);
    assert_eq!(parse_u64("18446744073709551615"), Some(u64::MAX));
    assert_eq!(parse_u64("18446744073709551616"), None);
    assert_eq!(parse_u64("-1"), None);
}

#[test]
fn out_time_lines() {
    assert_eq!(get_timestamp("out_time=00:00:01.500").unwrap(), "00:00:01.500");
    assert!(get_timestamp("frame=25").is_none());
    assert!(get_timestamp("out_time=1=2").is_none());
    assert!(get_timestamp("no separator").is_none());
}

#[test]
fn language_selection() {
    assert_eq!(Language::from_str("en"), Language::EN);
    assert_eq!(Language::from_str("  en\n"), Language::EN);
    assert_eq!(Language::from_str("En"), Language::DE);
    assert_eq!(Language::from_str("de"), Language::DE);
    assert_eq!(Language::from_input(&[]), Language::DE);
    assert_eq!(
        Language::from_input(&[String::from("en"), String::from("de")]),
        Language::EN
    );
}

#[test]
fn date_round_trip() {
    let d = parse_dmy("05-12-2023").unwrap();
    assert_eq!((d.day, d.month, d.year), (5, 12, 2023));
    assert_eq!(format_dmy(&d), "05-12-2023");
    assert!(parse_dmy("31-04-2023").is_none());
    assert!(parse_dmy("29-02-2024").is_some());
    assert!(parse_dmy("29-02-2023").is_none());
    assert!(parse_dmy("2023-12-05").is_none());
    assert!(PlainDate::new(2000, 2, 29).is_some());
    assert!(PlainDate::new(1900, 2, 29).is_none());
}

#[test]
fn display_number_formats() {
    assert_eq!(parse_bitrate(String::from("1500000")), "1.50");
    assert_eq!(parse_bitrate(String::from("not a number")), "not a number");
    assert_eq!(parse_size(String::from("2000000")), "2.00");
    assert_eq!(parse_size(String::from("123456")), "0.12");
    assert_eq!(parse_duration(String::from("12.34")), "12");
    assert_eq!(parse_duration(String::from("7")), "7");
    assert_eq!(parse_duration(String::from("x.5")), "x.5");
}
