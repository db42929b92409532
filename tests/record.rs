use log_engine::level::{LogLevel, Timestamp};
use log_engine::record::parse_line;

#[test]
fn parses_a_well_formed_line() {
    let r = parse_line("2024-03-09T17:05:59 Warning disk almost full").unwrap();
    assert_eq!(
        r.timestamp,
        Timestamp { year: 2024, month: 3, day: 9, hour: 17, minute: 5, second: 59 }
    );
    assert_eq!(r.log_level, LogLevel::Warning);
    assert_eq!(r.message, "disk almost full");
}

#[test]
fn parses_each_level_and_an_empty_message() {
    assert_eq!(parse_line("1999-12-31T23:59:00 Error x").unwrap().log_level, LogLevel::Error);
    assert_eq!(parse_line("1999-12-31T23:59:00 Info x").unwrap().log_level, LogLevel::Info);
    let r = parse_line("1999-12-31T23:59:00 Debug ").unwrap();
    assert_eq!(r.log_level, LogLevel::Debug);
    assert_eq!(r.message, "");
}

#[test]
fn rejects_unknown_level() {
    assert!(parse_line("2024-03-09T17:05:59 Fatal boom").is_none());
    assert!(parse_line("2024-03-09T17:05:59 ERROR boom").is_none());
    assert!(parse_line("2024-03-09T17:05:59 Errors boom").is_none());
}

#[test]
fn rejects_level_without_message_separator() {
    assert!(parse_line("2024-03-09T17:05:59 Error").is_none());
}

#[test]
fn rejects_bad_timestamps() {
    assert!(parse_line("2024-13-09T17:05:59 Error a").is_none());
    assert!(parse_line("2024-00-09T17:05:59 Error a").is_none());
    assert!(parse_line("2024-03-32T17:05:59 Error a").is_none());
    assert!(parse_line("2024-03-09T24:05:59 Error a").is_none());
    assert!(parse_line("2024-03-09T17:60:59 Error a").is_none());
    assert!(parse_line("2024-03-09T17:05:60 Error a").is_none());
    assert!(parse_line("2024/03/09T17:05:59 Error a").is_none());
    assert!(parse_line("20x4-03-09T17:05:59 Error a").is_none());
    assert!(parse_line("17:05:59 Error a").is_none());
    assert!(parse_line("").is_none());
}
