//! Trusted wrapper around the url crate's parser: what the library's logic
//! reads of a parsed URL — its host and its registrable domain — as plain
//! values.

use vstd::prelude::*;

verus! {

/// What the library reads of a parsed URL: the host component, when the
/// URL has one, and the domain (the host when it is a domain name rather
/// than an IP address).
pub struct UrlParts {
    pub host: Option<String>,
    pub domain: Option<String>,
}

/// The view of `UrlParts`: the same two components as character sequences.
pub struct UrlPartsView {
    pub host: Option<Seq<char>>,
    pub domain: Option<Seq<char>>,
}

impl View for UrlParts {
    type V = UrlPartsView;

    open spec fn view(&self) -> UrlPartsView {
        UrlPartsView {
            host: match self.host {
                Some(h) => Some(h@),
                None => None,
            },
            domain: match self.domain {
                Some(d) => Some(d@),
                None => None,
            },
        }
    }
}

/// Named result of url::Url::parse together with Url::host_str and
/// Url::domain: a function of the input string alone; nothing when the
/// input is not a well-formed absolute URL.
pub uninterp spec fn url_parts_of(s: Seq<char>) -> Option<UrlPartsView>;

/// Relies on url::Url::parse, Url::host_str and Url::domain: parses the
/// string as an absolute URL and reads its host and domain out, or yields
/// nothing when parsing fails; all three are functions of the input alone.
#[verifier::external_body]
pub(crate) fn parse_url(s: &str) -> (r: Option<UrlParts>)
    ensures
        match r {
            Some(p) => url_parts_of(s@) == Some(p@),
            None => url_parts_of(s@) is None,
        },
{
    match url::Url::parse(s) {
        Ok(u) => Some(UrlParts {
            host: u.host_str().map(|h| h.to_string()),
            domain: u.domain().map(|d| d.to_string()),
        }),
        Err(_) => None,
    }
}

} // verus!
