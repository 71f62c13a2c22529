//! From a hex colour to the catalogue entry nearest to it.

use vstd::prelude::*;
use crate::hex::{hex_to_rgb, parse_hex, HexError};
use crate::search::{find_closest_color, reports_nearest, ClosestColor, NamedColor};
use crate::ycbcr::{convert_ycbcr, ycbcr_of};

verus! {

/// Why a lookup has no result.
#[derive(Clone, Copy, Debug, PartialEq, Eq, Structural)]
pub enum LookupError {
    /// The catalogue holds no entry.
    EmptyCatalog,
    /// The colour asked for is not a `#RRGGBB` string.
    Query(HexError),
}

/// The error of a lookup, if it has one: an empty catalogue first, then a
/// malformed colour.
pub open spec fn lookup_error(query: Seq<char>, colors: Seq<NamedColor>) -> Option<LookupError> {
    if colors.len() == 0 {
        Some(LookupError::EmptyCatalog)
    } else {
        match parse_hex(query) {
            Err(e) => Some(LookupError::Query(e)),
            Ok(_) => None,
        }
    }
}

/// Finds the catalogue entry nearest to the colour that `query` denotes.
pub fn closest_to_hex<'a>(query: &str, named_colors: &'a [NamedColor]) -> (res: Result<
    ClosestColor<'a>,
    LookupError,
>)
    ensures
        match res {
            Err(e) => lookup_error(query@, named_colors@) == Some(e),
            Ok(found) => lookup_error(query@, named_colors@) is None && reports_nearest(
                found,
                ycbcr_of(parse_hex(query@)->Ok_0),
                named_colors@,
            ),
        },
{
    if named_colors.len() == 0 {
        return Err(LookupError::EmptyCatalog);
    }
    match hex_to_rgb(query) {
        Err(e) => Err(LookupError::Query(e)),
        Ok(rgb) => match find_closest_color(convert_ycbcr(rgb), named_colors) {
            Ok(found) => Ok(found),
            Err(_) => Err(LookupError::EmptyCatalog),
        },
    }
}

} // verus!
