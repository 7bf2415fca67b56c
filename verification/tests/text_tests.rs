use harvardciter2::int_to_string;
use harvardciter2::split;
use harvardciter2::format_date;
use harvardciter2::curr_time;
use harvardciter2::upper_first_letter;
use harvardciter2::site_label;
use chrono::Datelike;

#[test]
fn int_to_string_renders_decimal() {
    assert_eq!(int_to_string(0), "0");
    assert_eq!(int_to_string(7), "7");
    assert_eq!(int_to_string(1994), "1994");
    assert_eq!(int_to_string(-42), "-42");
    assert_eq!(int_to_string(i32::MAX), "2147483647");
    assert_eq!(int_to_string(i32::MIN), "-2147483648");
}

#[test]
fn split_keeps_empty_parts() {
    assert_eq!(split("a b c", ' '), vec!["a", "b", "c"]);
    assert_eq!(split("", ' '), vec![""]);
    assert_eq!(split("a..b", '.'), vec!["a", "", "b"]);
    assert_eq!(split("www.example.com", '.'), vec!["www", "example", "com"]);
    assert_eq!(split(" x", ' '), vec!["", "x"]);
}

#[test]
fn format_date_is_day_month_year() {
    assert_eq!(format_date(15, 11, 1994), "15/11/1994");
    assert_eq!(format_date(1, 1, -44), "1/1/-44");
}

#[test]
fn curr_time_is_todays_date() {
    let before = chrono::offset::Local::now();
    let r = curr_time();
    let after = chrono::offset::Local::now();
    let fmt = |n: chrono::DateTime<chrono::Local>| format!("{}/{}/{}", n.day(), n.month(), n.year());
    assert!(r == fmt(before) || r == fmt(after));
}

#[test]
fn upper_first_letter_upper_cases_one_character() {
    assert_eq!(upper_first_letter("example"), "Example");
    assert_eq!(upper_first_letter(""), "");
    assert_eq!(upper_first_letter("Already"), "Already");
}

#[test]
fn upper_first_letter_supports_multi_codepoint_expansions() {
    assert_eq!(upper_first_letter("\u{df}oo"), "SSoo");
}

#[test]
fn site_label_skips_reference_tokens() {
    let tokens = vec![String::from("www")];
    assert_eq!(site_label("www.example.com", &tokens), "Example");
}

#[test]
fn site_label_skips_suffix_tokens() {
    let tokens = vec![String::from("co"), String::from("uk")];
    assert_eq!(site_label("example.co.uk", &tokens), "Example");
}

#[test]
fn site_label_is_empty_when_every_label_is_known() {
    let tokens = vec![String::from("www"), String::from("com")];
    assert_eq!(site_label("www.com", &tokens), "");
}
