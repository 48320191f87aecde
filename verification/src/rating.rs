//! Parental rating levels.

use vstd::prelude::*;
use crate::text::{str_eq, to_uppercase, trim, trim_seq, unicode_upper};

verus! {

/// Rating level of an already upper-cased rating text.
pub open spec fn rating_level(s: Seq<char>) -> Option<i32> {
    if s == "G"@ || s == "TV-Y"@ || s == "APPROVED"@ {
        Some(1)
    } else if s == "TV-Y7"@ || s == "TV-Y7-FV"@ {
        Some(4)
    } else if s == "PG"@ || s == "TV-G"@ {
        Some(5)
    } else if s == "PG-13"@ || s == "TV-PG"@ {
        Some(7)
    } else if s == "TV-14"@ {
        Some(8)
    } else if s == "R"@ || s == "TV-MA"@ {
        Some(9)
    } else if s == "NC-17"@ || s == "X"@ || s == "XXX"@ || s == "UNRATED"@ {
        Some(10)
    } else {
        None
    }
}

/// The level of an upper-cased rating text: 1 for general audiences up to
/// 10 for adults only, `None` for "NR", "NOT RATED" and unknown texts.
pub fn rating_level_of_upper(upper: &str) -> (r: Option<i32>)
    ensures
        r == rating_level(upper@),
{
    if str_eq(upper, "G") || str_eq(upper, "TV-Y") || str_eq(upper, "APPROVED") {
        Some(1)
    } else if str_eq(upper, "TV-Y7") || str_eq(upper, "TV-Y7-FV") {
        Some(4)
    } else if str_eq(upper, "PG") || str_eq(upper, "TV-G") {
        Some(5)
    } else if str_eq(upper, "PG-13") || str_eq(upper, "TV-PG") {
        Some(7)
    } else if str_eq(upper, "TV-14") {
        Some(8)
    } else if str_eq(upper, "R") || str_eq(upper, "TV-MA") {
        Some(9)
    } else if str_eq(upper, "NC-17") || str_eq(upper, "X") || str_eq(upper, "XXX") || str_eq(
        upper,
        "UNRATED",
    ) {
        Some(10)
    } else {
        None
    }
}

/// The comparable level of an official rating: the rating is trimmed and
/// upper-cased, then looked up as `rating_level` says.
pub fn official_rating_to_value(rating: &str) -> (r: Option<i32>)
    ensures
        r == rating_level(unicode_upper(trim_seq(rating@))),
{
    let upper = to_uppercase(trim(rating));
    rating_level_of_upper(upper.as_str())
}

} // verus!
