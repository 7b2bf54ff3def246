use vinabar::{
    event_from_groups, event_from_record, fit_label, make_origin_label, parse_line,
    parse_percentage, BusRecord, Matcher, ParseError, PatternError,
};

#[test]
fn percentages_in_hundredths() {
    assert_eq!(parse_percentage("0"), Ok(0));
    assert_eq!(parse_percentage("10"), Ok(1000));
    assert_eq!(parse_percentage("10%"), Ok(1000));
    assert_eq!(parse_percentage("42.5"), Ok(4250));
    assert_eq!(parse_percentage("42.57"), Ok(4257));
    assert_eq!(parse_percentage("42.579%"), Ok(4257));
    assert_eq!(parse_percentage("7."), Ok(700));
    assert_eq!(parse_percentage(".5"), Ok(50));
    assert_eq!(parse_percentage(".5%"), Ok(50));
    assert_eq!(parse_percentage(".07"), Ok(7));
    assert_eq!(parse_percentage("100"), Ok(10000));
    assert_eq!(parse_percentage("099.99"), Ok(9999));
    assert_eq!(parse_percentage("250"), Ok(10000));
    assert_eq!(parse_percentage("123456789012345678901234567890"), Ok(10000));
}

#[test]
fn percentages_that_are_not_numbers() {
    assert_eq!(parse_percentage(""), Err(ParseError));
    assert_eq!(parse_percentage("%"), Err(ParseError));
    assert_eq!(parse_percentage("abc"), Err(ParseError));
    assert_eq!(parse_percentage("."), Err(ParseError));
    assert_eq!(parse_percentage(".%"), Err(ParseError));
    assert_eq!(parse_percentage("1.2.3"), Err(ParseError));
    assert_eq!(parse_percentage("-3"), Err(ParseError));
    assert_eq!(parse_percentage("5%%"), Err(ParseError));
    assert_eq!(parse_percentage("1 "), Err(ParseError));
}

#[test]
fn lines_with_the_default_pattern() {
    let m = Matcher::new(r"^([^:]+) *: *(\d+)%?").unwrap();
    assert_eq!(m.pattern(), r"^([^:]+) *: *(\d+)%?");
    let ev = parse_line(&m, "compile : 37%\n").unwrap().unwrap();
    assert_eq!(ev.label, "compile ");
    assert_eq!(ev.percentage, 3700);
    assert_eq!(ev.origin_id, None);
    assert!(parse_line(&m, "just some output\n").unwrap().is_none());
    assert!(m.is_match("a: 1"));
    assert!(!m.is_match("no colon"));
}

#[test]
fn matched_line_with_bad_number_is_an_error() {
    let m = Matcher::new(r"^(\w+): (\S+)").unwrap();
    assert_eq!(parse_line(&m, "build: soon\n").err(), Some(ParseError));
    let ev = parse_line(&m, "build: 12.5%\n").unwrap().unwrap();
    assert_eq!(ev.label, "build");
    assert_eq!(ev.percentage, 1250);
}

#[test]
fn invalid_pattern() {
    assert_eq!(Matcher::new("(unclosed").err(), Some(PatternError));
}

#[test]
fn groups_to_event() {
    let ev = event_from_groups("x".to_string(), "55").unwrap();
    assert_eq!(ev.label, "x");
    assert_eq!(ev.percentage, 5500);
    assert!(event_from_groups("x".to_string(), "5x").is_err());
}

#[test]
fn record_to_event() {
    let rec = || BusRecord { origin_id: 0, label: "l".to_string(), sequence_id: 2, percentage: 300 };
    assert!(event_from_record(rec(), false, true).is_none());
    let ev = event_from_record(rec(), true, true).unwrap();
    assert_eq!(ev.label, "0:l");
    assert_eq!(ev.origin_id, Some(0));
    let ev = event_from_record(rec(), true, false).unwrap();
    assert_eq!(ev.label, "l");
    assert_eq!(ev.percentage, 300);
}

#[test]
fn origin_labels_in_decimal() {
    assert_eq!(make_origin_label(0, "a"), "0:a");
    assert_eq!(make_origin_label(9, ""), "9:");
    assert_eq!(make_origin_label(10, "b"), "10:b");
    assert_eq!(make_origin_label(4294967295, "max"), "4294967295:max");
}

#[test]
fn labels_fitted_to_columns() {
    assert_eq!(fit_label("short", 12), "short");
    assert_eq!(fit_label("exactlytwelv", 12), "exactlytwelv");
    assert_eq!(fit_label("a-very-long-label", 12), "a-very-lo…el");
    assert_eq!(fit_label("a-very-long-label", 12).chars().count(), 12);
    assert_eq!(fit_label("abcdef", 3), "…ef");
    assert_eq!(fit_label("abcdef", 2), "ab");
    assert_eq!(fit_label("ünïcödé-label", 8), "ünïcö…el");
}
