use harvardciter2::guess_from_url;
use harvardciter2::GuessError;
use harvardciter2::GetOwnerError;
use harvardciter2::author_guess;
use harvardciter2::whois_query_url;
use harvardciter2::site_from_url;
use harvardciter2::get_domain_owner;

#[test]
fn malformed_url_fails_with_url_parse_and_no_network_call() {
    let tokens = vec![String::from("www")];
    let r = guess_from_url("not a url", "key", &tokens);
    assert!(matches!(r, Err(GuessError::UrlParse)));
}

#[test]
fn author_falls_back_to_site_on_whois_failure() {
    let site = "Example".to_string();
    let (author, from_whois) = author_guess(Err(GetOwnerError::QueryWhois), &site);
    assert_eq!(author, site);
    assert!(!from_whois);
}

#[test]
fn author_keeps_a_resolved_owner() {
    let site = "Example".to_string();
    let (author, from_whois) = author_guess(Ok("Example Org".to_string()), &site);
    assert_eq!(author, "Example Org");
    assert!(from_whois);
}

#[test]
fn whois_query_url_names_key_and_host() {
    assert_eq!(
        whois_query_url("KEY", "example.com"),
        "https://www.whoisxmlapi.com/whoisserver/WhoisService?apiKey=KEY&domainName=example.com"
    );
}

#[test]
fn site_from_url_derives_the_label_from_the_domain() {
    let tokens = vec![String::from("www")];
    let r = site_from_url("https://www.example.com/page?q=1", &tokens);
    assert_eq!(r, Ok("Example".to_string()));
}

#[test]
fn site_from_url_fails_without_a_domain() {
    let tokens = vec![String::from("www")];
    let r = site_from_url("https://127.0.0.1/", &tokens);
    assert_eq!(r, Err(GuessError::NoDomain));
}

#[test]
fn site_from_url_rejects_a_relative_string() {
    let tokens = vec![String::from("www")];
    assert_eq!(site_from_url("not a url", &tokens), Err(GuessError::UrlParse));
}

#[test]
fn whois_transport_failure_is_query_whois() {
    // The test build has no TLS backend, so the resolver's HTTPS query
    // fails at the transport layer before anything is sent.
    let r = get_domain_owner("example.com", "key");
    assert_eq!(r, Err(GetOwnerError::QueryWhois));
}
