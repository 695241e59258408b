//! Validation of raw command-line text before it reaches the request
//! builder, and the quality tags as the command line offers them.

use vstd::prelude::*;
use crate::text::spec_parse_uint;
use crate::text::spec_trim;
use crate::text::parse_uint_capped;
use crate::text::str_to_chars;
use crate::text::trim_chars;

verus! {

/// The quality tags as the command line spells them.
#[derive(Clone, Copy, Debug, PartialEq, Eq, Structural)]
pub enum Qualities {
    Q720p,
    Q1080p,
    Q2160p,
    Q3D,
}

pub open spec fn qualities_token(q: Qualities) -> Seq<char> {
    match q {
        Qualities::Q720p => "720p"@,
        Qualities::Q1080p => "1080p"@,
        Qualities::Q2160p => "2160p"@,
        Qualities::Q3D => "3D"@,
    }
}

pub open spec fn spec_qualities_from(s: Seq<char>) -> Option<Qualities> {
    if s == qualities_token(Qualities::Q720p) {
        Some(Qualities::Q720p)
    } else if s == qualities_token(Qualities::Q1080p) {
        Some(Qualities::Q1080p)
    } else if s == qualities_token(Qualities::Q2160p) {
        Some(Qualities::Q2160p)
    } else if s == qualities_token(Qualities::Q3D) {
        Some(Qualities::Q3D)
    } else {
        None
    }
}

impl Qualities {
    /// The token this tag is written as.
    pub fn token(&self) -> (r: &str)
        ensures
            r@ == qualities_token(*self),
    {
        match self {
            Qualities::Q720p => "720p",
            Qualities::Q1080p => "1080p",
            Qualities::Q2160p => "2160p",
            Qualities::Q3D => "3D",
        }
    }

    /// The tag written as `s`, if any.
    pub fn from_str(s: &str) -> (r: Option<Qualities>)
        ensures
            r == spec_qualities_from(s@),
    {
        if crate::text::str_eq(s, "720p") {
            Some(Qualities::Q720p)
        } else if crate::text::str_eq(s, "1080p") {
            Some(Qualities::Q1080p)
        } else if crate::text::str_eq(s, "2160p") {
            Some(Qualities::Q2160p)
        } else if crate::text::str_eq(s, "3D") {
            Some(Qualities::Q3D)
        } else {
            None
        }
    }
}

/// Whether the trimmed text reads as an unsigned decimal of at least one,
/// small enough for a sixteen-bit count.
pub open spec fn is_natural_one_plus(s: Seq<char>) -> bool {
    match spec_parse_uint(spec_trim(s)) {
        Some(x) => 1 <= x <= 0xFFFF,
        None => false,
    }
}

/// Accepts text whose trimmed form is a decimal count of at least one;
/// everything else is rejected with the given message.
pub fn validate_natural_one_plus(msg: String, val: String) -> (r: Result<(), String>)
    ensures
        match r {
            Ok(()) => is_natural_one_plus(val@),
            Err(m) => m@ == msg@ && !is_natural_one_plus(val@),
        },
{
    let cs = str_to_chars(val.as_str());
    let t = trim_chars(&cs);
    match parse_uint_capped(&t, 0xFFFF) {
        Some(x) => if x >= 1 {
            Ok(())
        } else {
            Err(msg)
        },
        None => Err(msg),
    }
}

/// Whether the trimmed text reads as a minimum-rating choice: an unsigned
/// decimal from one through nine, in a byte-sized encoding.
pub open spec fn is_min_rating(s: Seq<char>) -> bool {
    match spec_parse_uint(spec_trim(s)) {
        Some(x) => 1 <= x <= 9,
        None => false,
    }
}

/// Accepts text whose trimmed form is a decimal from one through nine;
/// everything else is rejected with the given message.
pub fn validate_min_rating(msg: String, val: String) -> (r: Result<(), String>)
    ensures
        match r {
            Ok(()) => is_min_rating(val@),
            Err(m) => m@ == msg@ && !is_min_rating(val@),
        },
{
    let cs = str_to_chars(val.as_str());
    let t = trim_chars(&cs);
    match parse_uint_capped(&t, 0xFF) {
        Some(x) => if 1 <= x && x <= 9 {
            Ok(())
        } else {
            Err(msg)
        },
        None => Err(msg),
    }
}

} // verus!
