use nr_cms::answers::{Answers, LocalDateTime, Request};
use nr_cms::dates::{contains_char, parse_date};

fn no_answers() -> Answers {
    Answers { images: Vec::new(), dirs: Vec::new(), times: Vec::new() }
}

fn local(year: i32, month: u32, day: u32, hour: u32, minute: u32, second: u32) -> LocalDateTime {
    LocalDateTime { year, month, day, hour, minute, second }
}

#[test]
fn test_parse_date() {
    let answers = no_answers();
    match parse_date(Some("2023-12-31"), &answers) {
        Err(Request::LocalTime(t)) => assert_eq!(t, local(2023, 12, 31, 0, 0, 0)),
        other => panic!("unexpected {:?}", other),
    }
    match parse_date(Some("2023-12-31 01:02:03"), &answers) {
        Err(Request::LocalTime(t)) => assert_eq!(t, local(2023, 12, 31, 1, 2, 3)),
        other => panic!("unexpected {:?}", other),
    }
    let answers = Answers {
        images: Vec::new(),
        dirs: Vec::new(),
        times: vec![(local(2023, 12, 31, 0, 0, 0), Some(1703980800))],
    };
    let date = parse_date(Some("2023-12-31"), &answers).unwrap().unwrap();
    assert_eq!(date.get_date(), Some(&1703980800));
}

#[test]
fn malformed_or_ambiguous_date_gives_nothing() {
    let answers = Answers {
        images: Vec::new(),
        dirs: Vec::new(),
        times: vec![(local(2023, 3, 26, 2, 30, 0), None)],
    };
    assert!(parse_date(Some("31.12.2023"), &answers).unwrap().is_none());
    assert!(parse_date(Some("2023-13-01"), &answers).unwrap().is_none());
    assert!(parse_date(Some("2023-03-26 02:30:00"), &answers).unwrap().is_none());
    assert!(parse_date(None, &answers).unwrap().is_none());
}

#[test]
fn contains_char_finds_colon() {
    assert!(contains_char("01:02", ':'));
    assert!(!contains_char("2023-12-31", ':'));
    assert!(!contains_char("", ':'));
}
