use harvardciter2::year_from_headers;
use harvardciter2::extract_year;
use chrono::Datelike;

fn hdr(s: &str) -> Option<Option<String>> {
    Some(Some(s.to_string()))
}

#[test]
fn year_from_last_modified_header() {
    let r = year_from_headers(hdr("Tue, 15 Nov 1994 08:12:31 GMT"), None, "fb".to_string());
    assert_eq!(r, "1994");
}

#[test]
fn year_from_date_header_when_last_modified_absent() {
    let r = year_from_headers(None, hdr("Wed, 21 Oct 2015 07:28:00 GMT"), "fb".to_string());
    assert_eq!(r, "2015");
}

#[test]
fn last_modified_wins_over_date() {
    let r = year_from_headers(
        hdr("Tue, 15 Nov 1994 08:12:31 GMT"),
        hdr("Wed, 21 Oct 2015 07:28:00 GMT"),
        "fb".to_string(),
    );
    assert_eq!(r, "1994");
}

#[test]
fn short_header_falls_back() {
    let r = year_from_headers(hdr("nonsense"), None, "2020".to_string());
    assert_eq!(r, "2020");
}

#[test]
fn undecodable_preferred_header_is_not_replaced_by_date() {
    let r = year_from_headers(Some(None), hdr("Wed, 21 Oct 2015 07:28:00 GMT"), "fb".to_string());
    assert_eq!(r, "fb");
}

#[test]
fn positional_parse_is_not_semantic() {
    let r = year_from_headers(hdr("a b c notayear d"), None, "fb".to_string());
    assert_eq!(r, "notayear");
}

#[test]
fn missing_headers_give_current_local_year() {
    let before = chrono::offset::Local::now().year().to_string();
    let r = extract_year(None, None);
    let after = chrono::offset::Local::now().year().to_string();
    assert!(r == before || r == after);
    assert_eq!(r.len(), 4);
}
