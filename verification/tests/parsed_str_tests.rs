use bookmarks::parsed_str::ParsedStr;

#[test]
fn parsed_str_from_value_shows_decimal() {
    let p = ParsedStr::from_value(512);
    assert_eq!(p.as_str(), "512");
    assert_eq!(p.value(), Some(512));
    assert_eq!(p.as_tuple(), (512, "512"));
}

#[test]
fn parsed_str_new_is_empty() {
    let p = ParsedStr::new();
    assert_eq!(p.as_str(), "");
    assert_eq!(p.value(), None);
    assert_eq!(p.as_tuple(), (0, ""));
    let d = ParsedStr::default();
    assert_eq!(d.value(), None);
}

#[test]
fn parsed_str_from_text_parses_numbers() {
    let p = ParsedStr::from_text("42").expect("a number");
    assert_eq!(p.value(), Some(42));
    assert_eq!(p.as_str(), "42");
    let e = ParsedStr::from_text("").expect("empty text");
    assert_eq!(e.value(), None);
    assert!(ParsedStr::from_text("4x").is_err());
    assert!(ParsedStr::from_text("-1").is_err());
}

#[test]
fn parsed_str_from_text_keeps_text_as_given() {
    let p = ParsedStr::from_text("+007").expect("a number with sign and zeros");
    assert_eq!(p.value(), Some(7));
    assert_eq!(p.as_str(), "+007");
}

#[test]
fn parsed_str_set_value_rewrites_text() {
    let mut p = ParsedStr::from_text("007").expect("a number");
    p.set_value(Some(9));
    assert_eq!(p.as_str(), "9");
    assert_eq!(p.value(), Some(9));
    p.set_value(None);
    assert_eq!(p.as_str(), "");
    assert_eq!(p.value(), None);
}

#[test]
fn parse_with_message_reports_change() {
    let mut p = ParsedStr::from_value(1);
    let msg = p.parse_with_message("75", "url width").expect("a number");
    assert_eq!(msg, "changed url width to 75");
    assert_eq!(p.value(), Some(75));
    let msg = p.parse_with_message("", "url width").expect("empty text");
    assert_eq!(msg, "changed url width to none");
    assert_eq!(p.value(), None);
}

#[test]
fn parse_with_message_leaves_field_on_error() {
    let mut p = ParsedStr::from_value(3);
    assert!(p.parse_with_message("three", "shown").is_err());
    assert_eq!(p.value(), Some(3));
    assert_eq!(p.as_str(), "3");
}

#[test]
fn value_text_round_trip_on_examples() {
    for v in [0usize, 7, 10, 512, usize::MAX] {
        let p = ParsedStr::from_value(v);
        let back = ParsedStr::from_text(p.as_str()).expect("shown text parses");
        assert_eq!(back.value(), Some(v));
    }
}

#[test]
fn parsed_str_parses_with_from_str() {
    let p: ParsedStr = "512".parse().expect("a number");
    assert_eq!(p.as_tuple(), (512, "512"));
    assert!("five".parse::<ParsedStr>().is_err());
}
