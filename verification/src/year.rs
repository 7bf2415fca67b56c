//! Header Date Extractor: infers a publication year from the
//! `Last-Modified` or `Date` HTTP response header by a positional parse
//! (the fourth whitespace-separated token), falling back to the current
//! local year.

use vstd::prelude::*;
use vstd::string::StringExecFns;
use crate::text::split;
use crate::text::split_spec;
use crate::text::dec_int;
use crate::text::int_to_string;
use crate::clock::local_date_now;

verus! {

/// The fourth whitespace-separated token of a header value, when there is
/// one: the year position of the conventional
/// `<weekday>, <day> <month> <year> ...` layout.  Positional, not
/// semantic: the token is not checked to be numeric.
pub open spec fn year_token(h: Seq<char>) -> Option<Seq<char>> {
    let parts = split_spec(h, ' ');
    if parts.len() > 3 {
        Some(parts[3])
    } else {
        None
    }
}

/// The year token the two headers yield: `Last-Modified` is preferred
/// when present (even if undecodable), else `Date`.  `Some(None)` stands
/// for a header that is present but could not be decoded as text.
pub open spec fn header_year_token(
    last_modified: Option<Option<Seq<char>>>,
    date: Option<Option<Seq<char>>>,
) -> Option<Seq<char>> {
    let picked = if last_modified is Some {
        last_modified
    } else {
        date
    };
    match picked {
        Some(Some(h)) => year_token(h),
        _ => None,
    }
}

/// The guessed year: the headers' year token when one is found, else the
/// fallback.
pub open spec fn year_spec(
    last_modified: Option<Option<Seq<char>>>,
    date: Option<Option<Seq<char>>>,
    fallback: Seq<char>,
) -> Seq<char> {
    match header_year_token(last_modified, date) {
        Some(t) => t,
        None => fallback,
    }
}

/// Extracts the year from the decoded header values, with an explicit
/// fallback value.  An inner `None` stands for a header that was present
/// but not decodable as text.
pub fn year_from_headers(
    last_modified: Option<Option<String>>,
    date: Option<Option<String>>,
    fallback: String,
) -> (r: String)
    ensures
        r@ == year_spec(last_modified.deep_view(), date.deep_view(), fallback@),
{
    let picked = match last_modified {
        Some(h) => Some(h),
        None => date,
    };
    match picked {
        Some(Some(h)) => {
            let parts = split(h.as_str(), ' ');
            if parts.len() > 3 {
                let t = parts[3].clone();
                proof {
                    assert(t@ == parts.deep_view()[3]);
                }
                t
            } else {
                fallback
            }
        },
        _ => fallback,
    }
}

/// Extracts the year from the headers, falling back to the current local
/// year rendered in decimal when no year token is found.
pub fn extract_year(last_modified: Option<Option<String>>, date: Option<Option<String>>) -> (r:
    String)
    ensures
        header_year_token(last_modified.deep_view(), date.deep_view()) matches Some(t) ==> r@ == t,
        header_year_token(last_modified.deep_view(), date.deep_view()) is None ==> exists|y: int|
            -262143 <= y <= 262142 && r@ == dec_int(y),
{
    let (_, _, year) = local_date_now();
    let fallback = int_to_string(year);
    year_from_headers(last_modified, date, fallback)
}

} // verus!
