//! Rating tiers: an integer 0 to 3 ordered from most to least
//! restrictive, each paired with a short provider code.

use vstd::prelude::*;
use crate::strutil::str_eq;
use crate::strutil::opt_str_view;

verus! {

/// The provider code paired with a tier; tiers outside 0 to 3 fall back
/// to the most restrictive code.
pub open spec fn spec_rating_code(k: int) -> Seq<char> {
    if k == 1 {
        "pg"@
    } else if k == 2 {
        "r"@
    } else if k == 3 {
        "x"@
    } else {
        "g"@
    }
}

/// The tier selected by an optional code; an unknown or absent code
/// yields the most restrictive tier.
pub open spec fn spec_rating_of(v: Option<Seq<char>>) -> int {
    match v {
        Some(s) => if s == "g"@ {
            0
        } else if s == "pg"@ {
            1
        } else if s == "r"@ {
            2
        } else if s == "x"@ {
            3
        } else {
            0
        },
        None => 0,
    }
}

/// Maps an optional rating code to its tier; unmapped input yields 0.
pub fn get_rating_from_value(v: Option<String>) -> (r: i8)
    ensures
        r as int == spec_rating_of(opt_str_view(v)),
        0 <= r <= 3,
{
    match v {
        None => 0,
        Some(s) => {
            if str_eq(s.as_str(), "g") {
                0
            } else if str_eq(s.as_str(), "pg") {
                1
            } else if str_eq(s.as_str(), "r") {
                2
            } else if str_eq(s.as_str(), "x") {
                3
            } else {
                0
            }
        },
    }
}

/// Maps a tier to its provider code; tiers outside 0 to 3 fall back to
/// the most restrictive code.
pub fn get_rating(k: i8) -> (r: &'static str)
    ensures
        r@ == spec_rating_code(k as int),
{
    if k == 1 {
        "pg"
    } else if k == 2 {
        "r"
    } else if k == 3 {
        "x"
    } else {
        "g"
    }
}

} // verus!
