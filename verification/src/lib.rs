//! Best-effort inference of Harvard-citation metadata for a web page.
//!
//! Given a URL, the library guesses the four fields of a citation record:
//! the author (or owning organisation), the publication year, the page
//! title and the site name.  Each sub-step is specified and verified; the
//! network fetches themselves stand behind small trusted wrappers.

mod clock;
mod guess;
mod html;
mod net;
mod site;
mod text;
mod urlparse;
mod whois;
mod xml;
mod year;

pub use text::int_to_string;
pub use text::split;
pub use site::site_label;
pub use site::upper_first_letter;
pub use year::year_from_headers;
pub use year::extract_year;
pub use clock::curr_time;
pub use clock::format_date;
pub use xml::XmlNode;
pub use xml::XmlElement;
pub use xml::descend_xml_tree;
pub use xml::xml_text;
pub use html::HtmlNode;
pub use html::HtmlElement;
pub use html::search_for_title;
pub use html::search_for_title_element;
pub use html::lemma_title_found_iff;
pub use whois::GetOwnerError;
pub use whois::whois_query_url;
pub use whois::parse_owner_body;
pub use whois::get_domain_owner;
pub use guess::GuessError;
pub use guess::Guesses;
pub use guess::guess_from_url;
pub use guess::page_guess;
pub use guess::page_from_body;
pub use guess::site_from_url;
pub use guess::author_guess;
