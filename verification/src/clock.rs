//! The current local date, and its rendering as `day/month/year`, used
//! for the citation's access-date field and as the year fallback.

use vstd::prelude::*;
use vstd::string::StringExecFns;
use chrono::Datelike;
use crate::text::dec_digits;
use crate::text::dec_int;
use crate::text::u32_to_string;
use crate::text::int_to_string;

verus! {

/// Relies on chrono::offset::Local::now and Datelike::{day, month, year}:
/// the current local calendar date; chrono documents the day as ranging
/// over 1..=31, the month over 1..=12, and its date types as limited to
/// about 262,000 years either side of the common epoch.
#[verifier::external_body]
pub(crate) fn local_date_now() -> (r: (u32, u32, i32))
    ensures
        1 <= r.0 <= 31,
        1 <= r.1 <= 12,
        -262143 <= r.2 <= 262142,
{
    let now = chrono::offset::Local::now();
    (now.day(), now.month(), now.year())
}

/// A date rendered as `day/month/year`, each part in decimal.
pub open spec fn date_string_spec(day: nat, month: nat, year: int) -> Seq<char> {
    dec_digits(day) + seq!['/'] + dec_digits(month) + seq!['/'] + dec_int(year)
}

/// Renders a date as `day/month/year`.
pub fn format_date(day: u32, month: u32, year: i32) -> (r: String)
    ensures
        r@ == date_string_spec(day as nat, month as nat, year as int),
{
    let mut s = u32_to_string(day);
    s.append("/");
    let m = u32_to_string(month);
    s.append(m.as_str());
    s.append("/");
    let y = int_to_string(year);
    s.append(y.as_str());
    proof {
        reveal_strlit("/");
        assert(s@ =~= date_string_spec(day as nat, month as nat, year as int));
    }
    s
}

/// The current local date as `day/month/year`: some valid calendar date,
/// rendered as `date_string_spec` describes.
pub fn curr_time() -> (r: String)
    ensures
        exists|d: nat, m: nat, y: int|
            1 <= d <= 31 && 1 <= m <= 12 && r@ == date_string_spec(d, m, y),
{
    let (d, m, y) = local_date_now();
    let r = format_date(d, m, y);
    proof {
        assert(1 <= d as nat <= 31 && 1 <= m as nat <= 12 && r@ == date_string_spec(
            d as nat,
            m as nat,
            y as int,
        ));
    }
    r
}

} // verus!
