use bin_reminder::bin::format_bin;
use bin_reminder::date::{decode_date, CalendarDate};
use bin_reminder::error::ScheduleError;
use bin_reminder::schedule::{get_bin, get_schedule, get_tomorrows_bin, notification_text};
use bin_reminder::tokens::{get_coded_pair, get_coded_pairs, get_coded_schedule};

fn date(y: i32, m: u32, d: u32) -> CalendarDate {
    CalendarDate::from_ymd_opt(y, m, d).unwrap()
}

#[test]
fn test_format_bin() {
    assert_eq!(format_bin('B'), "Black Bin".to_owned());
    assert_eq!(format_bin('G'), "Green Bin".to_owned());
    assert_eq!(format_bin('R'), "Brown Bin".to_owned());
    assert_eq!(format_bin('T'), "Unknown Bin 'T'".to_owned());
}

#[test]
fn test_decode_date() {
    let mut response = decode_date("559H".to_owned());
    let expected = CalendarDate::from_ymd_opt(2024, 01, 01).unwrap();
    assert_eq!(response.unwrap(), expected);

    response = decode_date("559I".to_owned());
    assert_ne!(response.unwrap(), expected);

    assert!(decode_date("559G".to_owned()).is_err())
}

#[test]
fn test_get_coded_pair() {
    let mut response = get_coded_pair(&['a', 'b', 'c', 'd', 'e']);
    let expected = ("abcd".to_owned(), 'e');
    assert_eq!(response.unwrap(), expected);

    response = get_coded_pair(&['a', 'b', 'c', 'd']);
    assert!(response.is_err());
}

#[test]
fn test_get_coded_pairs() {
    let mut response = get_coded_pairs("test,abcdefghij".to_owned());
    let expected = vec![("abcd".to_owned(), 'e'), ("fghi".to_owned(), 'j')];
    assert_eq!(response.unwrap(), expected);

    response = get_coded_pairs("test,abcdefghi".to_owned());
    assert!(response.is_err());
}

#[test]
fn short_token_is_malformed_length() {
    assert_eq!(get_coded_pair(&['a']), Err(ScheduleError::MalformedLength));
    assert_eq!(get_coded_pair(&[]), Err(ScheduleError::MalformedLength));
}

#[test]
fn short_run_is_malformed_length() {
    assert_eq!(get_coded_pairs("test,abcdefghi".to_owned()), Err(ScheduleError::MalformedLength));
}

#[test]
fn token_count_is_a_fifth_of_the_run() {
    let pairs = get_coded_pairs("k,0123456789ABCDE".to_owned()).unwrap();
    assert_eq!(pairs.len(), 3);
    assert_eq!(pairs[0], ("0123".to_owned(), '4'));
    assert_eq!(pairs[1], ("5678".to_owned(), '9'));
    assert_eq!(pairs[2], ("ABCD".to_owned(), 'E'));
}

#[test]
fn empty_run_gives_no_tokens() {
    assert_eq!(get_coded_pairs("test,".to_owned()), Ok(vec![]));
}

#[test]
fn only_second_field_is_tokenised() {
    let pairs = get_coded_pairs("test,abcde,fghij".to_owned()).unwrap();
    assert_eq!(pairs, vec![("abcd".to_owned(), 'e')]);
}

#[test]
fn line_without_comma_is_malformed() {
    assert_eq!(get_coded_pairs("test".to_owned()), Err(ScheduleError::MalformedLine));
}

#[test]
fn schedule_line_is_selected_by_key() {
    let text = "other,zzzzz\ntest,abcdefghij\ntest,klmno".to_owned();
    let pairs = get_coded_schedule(text, "test").unwrap();
    assert_eq!(pairs, vec![("abcd".to_owned(), 'e'), ("fghi".to_owned(), 'j')]);
}

#[test]
fn schedule_line_with_crlf_ending() {
    let text = "other,zzzzz\r\ntest,abcde\r\n".to_owned();
    let pairs = get_coded_schedule(text, "test").unwrap();
    assert_eq!(pairs, vec![("abcd".to_owned(), 'e')]);
}

#[test]
fn schedule_extraction_of_short_run_fails() {
    assert_eq!(
        get_coded_schedule("test,abcdefghi".to_owned(), "test"),
        Err(ScheduleError::MalformedLength)
    );
}

#[test]
fn missing_address_is_not_found() {
    assert_eq!(get_coded_schedule("other,abcde\n".to_owned(), "test"), Err(ScheduleError::NotFound));
    assert_eq!(get_coded_schedule("".to_owned(), "test"), Err(ScheduleError::NotFound));
    assert_eq!(get_coded_schedule("Test,abcde".to_owned(), "test"), Err(ScheduleError::NotFound));
}

#[test]
fn decode_date_exact_values() {
    assert_eq!(decode_date("559H".to_owned()), Ok(date(2024, 1, 1)));
    assert_eq!(decode_date("559I".to_owned()), Ok(date(2024, 1, 2)));
    assert_eq!(decode_date("559h".to_owned()), Ok(date(2024, 1, 1)));
    assert_eq!(decode_date("55D1".to_owned()), Ok(date(2024, 2, 29)));
}

#[test]
fn decode_date_errors() {
    assert_eq!(decode_date("559G".to_owned()), Err(ScheduleError::InvalidCalendarDate));
    assert_eq!(decode_date("5D2T".to_owned()), Err(ScheduleError::InvalidCalendarDate));
    assert_eq!(decode_date("55!H".to_owned()), Err(ScheduleError::InvalidRadixDigit));
    assert_eq!(decode_date("-59H".to_owned()), Err(ScheduleError::InvalidRadixDigit));
    assert_eq!(decode_date("ZZZ".to_owned()), Err(ScheduleError::InvalidDateEncoding));
    assert_eq!(decode_date("ZZZZ".to_owned()), Err(ScheduleError::InvalidDateEncoding));
    assert_eq!(decode_date("ZZZZZZZZZZZZZZZZ".to_owned()), Err(ScheduleError::InvalidDateEncoding));
}

#[test]
fn decode_date_is_repeatable() {
    assert_eq!(decode_date("559H".to_owned()), decode_date("559H".to_owned()));
    assert_eq!(decode_date("559G".to_owned()), decode_date("559G".to_owned()));
}

#[test]
fn from_ymd_opt_rejects_missing_days() {
    assert!(CalendarDate::from_ymd_opt(2023, 2, 29).is_none());
    assert!(CalendarDate::from_ymd_opt(2023, 4, 31).is_none());
    assert!(CalendarDate::from_ymd_opt(2023, 13, 1).is_none());
    assert!(CalendarDate::from_ymd_opt(2023, 1, 0).is_none());
    assert!(CalendarDate::from_ymd_opt(400000, 1, 1).is_none());
    assert!(CalendarDate::from_ymd_opt(2000, 2, 29).is_some());
}

#[test]
fn schedule_decodes_in_order() {
    let s = get_schedule("test,559HB559IG".to_owned(), "test").unwrap();
    assert_eq!(s, vec![(date(2024, 1, 1), "Black Bin".to_owned()), (date(2024, 1, 2), "Green Bin".to_owned())]);
}

#[test]
fn schedule_fails_on_first_bad_token() {
    assert_eq!(get_schedule("test,559HB559GG55!HR".to_owned(), "test"), Err(ScheduleError::InvalidCalendarDate));
    assert_eq!(get_schedule("test,559HX".to_owned(), "test").unwrap()[0].1, "Unknown Bin 'X'".to_owned());
}

#[test]
fn tomorrow_on_empty_schedule_is_none() {
    assert_eq!(get_tomorrows_bin(vec![], date(2024, 1, 1)), None);
    assert_eq!(get_tomorrows_bin(vec![], date(2023, 12, 31)), None);
}

#[test]
fn tomorrow_first_duplicate_wins() {
    let s = vec![
        (date(2024, 1, 1), "Black Bin".to_owned()),
        (date(2024, 1, 2), "Green Bin".to_owned()),
        (date(2024, 1, 2), "Brown Bin".to_owned()),
    ];
    assert_eq!(get_tomorrows_bin(s, date(2024, 1, 1)), Some("Green Bin".to_owned()));
}

#[test]
fn tomorrow_is_not_today() {
    let s = vec![(date(2024, 1, 1), "Black Bin".to_owned())];
    assert_eq!(get_tomorrows_bin(s, date(2024, 1, 1)), None);
}

#[test]
fn tomorrow_rolls_over_year_and_leap_day() {
    let s = vec![(date(2024, 1, 1), "Black Bin".to_owned()), (date(2024, 2, 29), "Brown Bin".to_owned())];
    assert_eq!(get_tomorrows_bin(s.clone(), date(2023, 12, 31)), Some("Black Bin".to_owned()));
    assert_eq!(get_tomorrows_bin(s.clone(), date(2024, 2, 28)), Some("Brown Bin".to_owned()));
    assert_eq!(get_tomorrows_bin(s, date(262142, 12, 31)), None);
}

#[test]
fn get_bin_end_to_end() {
    let text = "a,559HB\ntest,4YF3R559HG".to_owned();
    assert_eq!(get_bin(text.clone(), "test", date(2023, 12, 31)), Ok(Some("Green Bin".to_owned())));
    assert_eq!(get_bin(text.clone(), "test", date(2024, 1, 1)), Ok(None));
    assert_eq!(get_bin(text, "none", date(2024, 1, 1)), Err(ScheduleError::NotFound));
}

#[test]
fn notification_texts() {
    assert_eq!(
        notification_text(&Ok(Some("Black Bin".to_owned()))),
        Some("Put out Black Bin for tomorrow".to_owned())
    );
    assert_eq!(notification_text(&Ok(None)), None);
    assert_eq!(
        notification_text(&Err(ScheduleError::NotFound)),
        Some("Error: No result found for specified property".to_owned())
    );
}
