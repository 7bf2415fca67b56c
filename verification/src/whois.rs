//! WHOIS Owner Resolver: builds the WHOIS-proxy query for a host, issues
//! one blocking GET, and reads the registrant organisation out of the XML
//! response.

use vstd::prelude::*;
use vstd::string::StringExecFns;
use crate::xml::XmlNode;
use crate::xml::named_descendants;
use crate::xml::xml_text_spec;
use crate::xml::xml_of;
use crate::xml::parse_xml;
use crate::xml::descend_xml_tree;
use crate::xml::xml_text;
use crate::net::http_get;
use crate::net::response_text;

verus! {

/// Why WHOIS owner resolution failed; the caller treats every kind as a
/// recoverable outcome and falls back.
#[derive(Debug, Clone, PartialEq, Eq, Structural)]
pub enum GetOwnerError {
    QueryWhois,
    ReadWhoisText,
    ParseXML,
    ParseRegistrant,
    ParseOrganisation,
    NoOrganisation,
}

/// The WHOIS-proxy query URL for a host, with the provisioned API key.
pub open spec fn whois_query_spec(api_key: Seq<char>, host: Seq<char>) -> Seq<char> {
    "https://www.whoisxmlapi.com/whoisserver/WhoisService?apiKey="@ + api_key + "&domainName="@
        + host
}

/// Builds the WHOIS-proxy query URL for a host.
pub fn whois_query_url(api_key: &str, host: &str) -> (r: String)
    ensures
        r@ == whois_query_spec(api_key@, host@),
{
    let mut s = String::from_str("https://www.whoisxmlapi.com/whoisserver/WhoisService?apiKey=");
    s.append(api_key);
    s.append("&domainName=");
    s.append(host);
    proof {
        assert(s@ =~= whois_query_spec(api_key@, host@));
    }
    s
}

/// The registrant organisation an XML body yields: the text of the unique
/// `organization` element under the unique `registrant` element, or the
/// failure naming the first step that does not come out that way.
pub open spec fn owner_of_xml(s: Seq<char>) -> Result<Seq<char>, GetOwnerError> {
    match xml_of(s) {
        None => Err(GetOwnerError::ParseXML),
        Some(root) => {
            let regs = named_descendants(root, "registrant"@);
            if regs.len() != 1 {
                Err(GetOwnerError::ParseRegistrant)
            } else {
                let orgs = named_descendants(regs[0], "organization"@);
                if orgs.len() != 1 {
                    Err(GetOwnerError::ParseOrganisation)
                } else {
                    match xml_text_spec(orgs[0]) {
                        Some(t) => Ok(t),
                        None => Err(GetOwnerError::NoOrganisation),
                    }
                }
            }
        },
    }
}

/// Reads the registrant organisation out of a WHOIS XML response body, as
/// `owner_of_xml` describes: each failure kind comes exactly on the inputs
/// it names.
pub fn parse_owner_body(xml: &str) -> (r: Result<String, GetOwnerError>)
    ensures
        match r {
            Ok(s) => owner_of_xml(xml@) == Ok::<Seq<char>, GetOwnerError>(s@),
            Err(e) => owner_of_xml(xml@) == Err::<Seq<char>, GetOwnerError>(e),
        },
{
    let root = match parse_xml(xml) {
        Some(t) => t,
        None => {
            return Err(GetOwnerError::ParseXML);
        },
    };
    let registrant = match descend_xml_tree(&root, &String::from_str("registrant")) {
        Some(n) => n,
        None => {
            return Err(GetOwnerError::ParseRegistrant);
        },
    };
    let organisation = match descend_xml_tree(registrant, &String::from_str("organization")) {
        Some(n) => n,
        None => {
            return Err(GetOwnerError::ParseOrganisation);
        },
    };
    match xml_text(organisation) {
        Some(t) => Ok(t),
        None => Err(GetOwnerError::NoOrganisation),
    }
}

/// Resolves the owning organisation of a host through the WHOIS-proxy API:
/// one query URL is built, one blocking GET issued, and the response read
/// as `owner_of_xml` describes.  Success is owed to no one — the network
/// decides — but an `Ok` is always the organisation of some well-formed
/// WHOIS response body, and every failure beyond the two transport kinds
/// is `owner_of_xml`'s verdict on some body.
pub fn get_domain_owner(host: &str, api_key: &str) -> (r: Result<String, GetOwnerError>)
    ensures
        r matches Ok(s) ==> exists|body: Seq<char>|
            owner_of_xml(body) == Ok::<Seq<char>, GetOwnerError>(s@),
        r matches Err(e) ==> (e != GetOwnerError::QueryWhois && e != GetOwnerError::ReadWhoisText
            ==> exists|body: Seq<char>| owner_of_xml(body) == Err::<Seq<char>, GetOwnerError>(e)),
{
    let query = whois_query_url(api_key, host);
    let res = match http_get(query.as_str()) {
        Some(r) => r,
        None => {
            return Err(GetOwnerError::QueryWhois);
        },
    };
    let body = match response_text(res) {
        Some(t) => t,
        None => {
            return Err(GetOwnerError::ReadWhoisText);
        },
    };
    let r = parse_owner_body(body.as_str());
    proof {
        if r is Ok {
            assert(owner_of_xml(body@) == Ok::<Seq<char>, GetOwnerError>(r->Ok_0@));
        } else {
            assert(owner_of_xml(body@) == Err::<Seq<char>, GetOwnerError>(r->Err_0));
        }
    }
    r
}

} // verus!
