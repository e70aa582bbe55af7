use webcrawler::config::{effective_limit, parse_usize, DEFAULT_URL_LIMIT};

#[test]
fn absent_setting_falls_back_to_the_default() {
    assert_eq!(effective_limit(None), 50);
    assert_eq!(DEFAULT_URL_LIMIT, 50);
}

#[test]
fn unparsable_settings_fall_back_to_the_default() {
    assert_eq!(effective_limit(Some("")), 50);
    assert_eq!(effective_limit(Some("abc")), 50);
    assert_eq!(effective_limit(Some("12x")), 50);
    assert_eq!(effective_limit(Some("-3")), 50);
    assert_eq!(effective_limit(Some(" 7")), 50);
    assert_eq!(effective_limit(Some("+")), 50);
    assert_eq!(effective_limit(Some("99999999999999999999999999")), 50);
}

#[test]
fn numeric_settings_are_used() {
    assert_eq!(effective_limit(Some("30")), 30);
    assert_eq!(effective_limit(Some("0")), 0);
    assert_eq!(effective_limit(Some("07")), 7);
    assert_eq!(effective_limit(Some("+8")), 8);
}

#[test]
fn parse_usize_matches_the_standard_parser() {
    for input in [
        "", "0", "1", "007", "+42", "+", "-1", "abc", "18446744073709551615",
        "18446744073709551616", "  5", "5 ", "1_000",
    ] {
        assert_eq!(parse_usize(input), input.parse::<usize>().ok());
    }
}
