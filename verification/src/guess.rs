//! Metadata Guesser: the orchestrator that fetches a URL once and composes
//! the header, title, site and WHOIS components into one `Guesses` record,
//! with deterministic fallbacks where a sub-step fails.

use vstd::prelude::*;
use vstd::string::StringExecFns;
use crate::urlparse::UrlParts;
use crate::urlparse::url_parts_of;
use crate::urlparse::parse_url;
use crate::net::http_get;
use crate::net::header_last_modified;
use crate::net::header_date;
use crate::net::response_text;
use crate::year::extract_year;
use crate::year::year_spec;
use crate::year::header_year_token;
use crate::text::dec_int;
use crate::html::parse_html;
use crate::html::html_of;
use crate::html::title_in_nodes;
use crate::html::search_for_title;
use crate::site::site_label;
use crate::site::site_label_spec;
use crate::whois::get_domain_owner;
use crate::whois::owner_of_xml;
use crate::whois::GetOwnerError;

verus! {

/// Which pipeline stage a guess failed at; each kind aborts the whole
/// guess.
#[derive(Debug, Clone, PartialEq, Eq, Structural)]
pub enum GuessError {
    UrlParse,
    Request,
    Decoding,
    DomParsing,
    NoDomain,
}

/// The guessed citation fields.  All four are always populated on success;
/// `author_from_whois` records whether the author came from WHOIS
/// resolution or fell back to the site label.
pub struct Guesses {
    pub author: String,
    pub year: String,
    pub page: String,
    pub site: String,
    pub author_from_whois: bool,
}

/// The page title a guess carries for an extracted title: the title
/// itself, or the fixed fallback when none was found.
pub fn page_guess(title: Option<String>) -> (r: String)
    ensures
        match title {
            Some(t) => r@ == t@,
            None => r@ == "unknown title"@,
        },
{
    match title {
        Some(t) => t,
        None => String::from_str("unknown title"),
    }
}

/// The author a guess carries: the resolved owner when WHOIS succeeded
/// (tagged true), else the site label itself (tagged false) — the
/// fallback-identity rule.
pub fn author_guess(owner: Result<String, GetOwnerError>, site: &String) -> (r: (String, bool))
    ensures
        match owner {
            Ok(o) => r.0@ == o@ && r.1,
            Err(_) => r.0@ == site@ && !r.1,
        },
{
    match owner {
        Ok(o) => (o, true),
        Err(_) => (site.clone(), false),
    }
}

/// Parses a fetched body as HTML and derives the page-title guess with its
/// fallback: the body-dependent steps of the guess pipeline, a function of
/// the body alone.
pub fn page_from_body(body: &str) -> (r: Result<String, GuessError>)
    ensures
        html_of(body@) is None ==> r == Err::<String, GuessError>(GuessError::DomParsing),
        html_of(body@) matches Some(ns) ==> (r matches Ok(p) && p@ == (match title_in_nodes(ns) {
            Some(t) => t,
            None => "unknown title"@,
        })),
{
    let dom = match parse_html(body) {
        Some(d) => d,
        None => {
            return Err(GuessError::DomParsing);
        },
    };
    let title = search_for_title(&dom);
    Ok(page_guess(title))
}

/// Derives the site label straight from a URL string: parse it, take its
/// domain, and apply the Domain Label Deriver — the URL-dependent steps of
/// the guess pipeline, a function of the URL alone.
pub fn site_from_url(raw_url: &str, subdomain_tokens: &Vec<String>) -> (r: Result<
    String,
    GuessError,
>)
    ensures
        match url_parts_of(raw_url@) {
            None => r == Err::<String, GuessError>(GuessError::UrlParse),
            Some(p) => match p.domain {
                None => r == Err::<String, GuessError>(GuessError::NoDomain),
                Some(d) => r matches Ok(s) && s@ == site_label_spec(
                    d,
                    subdomain_tokens.deep_view(),
                ),
            },
        },
{
    let parts = match parse_url(raw_url) {
        Some(p) => p,
        None => {
            return Err(GuessError::UrlParse);
        },
    };
    let domain = match parts.domain {
        Some(d) => d,
        None => {
            return Err(GuessError::NoDomain);
        },
    };
    Ok(site_label(domain.as_str(), subdomain_tokens))
}

/// Guesses the citation fields for a URL: parse it, fetch it once, read
/// the year from the response headers, the page title from the body, the
/// site label from the domain, and the author from WHOIS with the site
/// label as fallback.  Every stage failure is the corresponding error;
/// only WHOIS failure is absorbed.
pub fn guess_from_url(raw_url: &str, api_key: &str, subdomain_tokens: &Vec<String>) -> (r: Result<
    Guesses,
    GuessError,
>)
    ensures
        r == Err::<Guesses, GuessError>(GuessError::UrlParse) <==> url_parts_of(raw_url@) is None,
        r matches Ok(g) ==> (url_parts_of(raw_url@) matches Some(p) && p.domain matches Some(d)
            && g.site@ == site_label_spec(d, subdomain_tokens.deep_view())),
        r matches Ok(g) ==> (!g.author_from_whois ==> g.author@ == g.site@),
        r matches Ok(g) ==> (g.author_from_whois ==> exists|body: Seq<char>|
            owner_of_xml(body) == Ok::<Seq<char>, GetOwnerError>(g.author@)),
        r matches Ok(g) ==> exists|body: Seq<char>|
            (#[trigger] html_of(body)) matches Some(ns) && g.page@ == (match title_in_nodes(ns) {
                Some(t) => t,
                None => "unknown title"@,
            }),
        r matches Ok(g) ==> exists|lm: Option<Option<Seq<char>>>, d: Option<Option<Seq<char>>>, y: int|
            -262143 <= y <= 262142 && g.year@ == year_spec(lm, d, dec_int(y)),
        r == Err::<Guesses, GuessError>(GuessError::NoDomain) ==> (url_parts_of(raw_url@) matches
            Some(p) && p.domain is None),
        (url_parts_of(raw_url@) matches Some(p) && p.domain is None) ==> r is Err,
{
    let parts = match parse_url(raw_url) {
        Some(p) => p,
        None => {
            return Err(GuessError::UrlParse);
        },
    };
    let ghost pv = parts@;

    let res = match http_get(raw_url) {
        Some(r) => r,
        None => {
            return Err(GuessError::Request);
        },
    };

    let last_modified = header_last_modified(&res);
    let date = header_date(&res);
    let ghost lmv = last_modified.deep_view();
    let ghost dtv = date.deep_view();
    let year = extract_year(last_modified, date);
    proof {
        if header_year_token(lmv, dtv) is Some {
            assert(year@ == year_spec(lmv, dtv, dec_int(0)));
        } else {
            let y0 = choose|y0: int| -262143 <= y0 <= 262142 && year@ == dec_int(y0);
            assert(-262143 <= y0 <= 262142 && year@ == year_spec(lmv, dtv, dec_int(y0)));
        }
    }

    let body = match response_text(res) {
        Some(t) => t,
        None => {
            return Err(GuessError::Decoding);
        },
    };
    let page = match page_from_body(body.as_str()) {
        Ok(p) => p,
        Err(e) => {
            return Err(e);
        },
    };
    proof {
        assert(html_of(body@) matches Some(ns) && page@ == (match title_in_nodes(ns) {
            Some(t) => t,
            None => "unknown title"@,
        }));
    }

    let UrlParts { host, domain } = parts;
    let domain = match domain {
        Some(d) => d,
        None => {
            return Err(GuessError::NoDomain);
        },
    };
    let site = site_label(domain.as_str(), subdomain_tokens);

    let host = match host {
        Some(h) => h,
        None => String::new(),
    };
    let owner = get_domain_owner(host.as_str(), api_key);
    let (author, author_from_whois) = author_guess(owner, &site);

    Ok(Guesses { author, year, page, site, author_from_whois })
}

} // verus!
