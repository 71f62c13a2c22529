//! Nearest-neighbour search in a catalogue of named colours.

use vstd::prelude::*;
use crate::distance::{color_distance_sq, distance, distance_sq, isqrt};
use crate::hex::format_hex;
use crate::ycbcr::{convert_hex, rgb_of, ColorYCbCr};

verus! {

/// A catalogue entry: a display name and the point of its colour.
#[derive(Clone, Debug)]
pub struct NamedColor {
    pub name: String,
    pub ycbcr: ColorYCbCr,
}

/// Why a search has no result.
#[derive(Clone, Copy, Debug, PartialEq, Eq, Structural)]
pub enum SearchError {
    /// The catalogue holds no entry.
    EmptyCatalog,
}

/// The entry of a catalogue that lies nearest to a point.
#[derive(Debug)]
pub struct ClosestColor<'a> {
    /// The entry's name.
    pub name: &'a str,
    /// The entry's position in the catalogue.
    pub index: usize,
    /// The squared distance from the point to the entry.
    pub distance_sq: u128,
    /// The distance from the point to the entry, rounded down to a whole unit.
    pub distance: u64,
    /// The entry's colour as `#RRGGBB`.
    pub hex: String,
}

/// The squared distance from `target` to entry `i` of `colors`.
pub open spec fn distance_sq_to(target: ColorYCbCr, colors: Seq<NamedColor>, i: int) -> int {
    distance_sq(target, colors[i].ycbcr)
}

/// Entry `i` is the nearest to `target`: no entry is nearer, and every
/// entry before it is strictly farther, so that of several entries at the
/// least distance the first one is the nearest.
pub open spec fn is_nearest(target: ColorYCbCr, colors: Seq<NamedColor>, i: int) -> bool {
    &&& 0 <= i < colors.len()
    &&& forall|j: int|
        0 <= j < i ==> #[trigger] distance_sq_to(target, colors, j) > distance_sq_to(
            target,
            colors,
            i,
        )
    &&& forall|j: int|
        i <= j < colors.len() ==> #[trigger] distance_sq_to(target, colors, j)
            >= distance_sq_to(target, colors, i)
}

/// `found` reports entry `found.index` of `colors`, which is the nearest to
/// `target`: its name, its distance from `target`, squared and rooted, and
/// its colour as `#RRGGBB`.
pub open spec fn reports_nearest(
    found: ClosestColor,
    target: ColorYCbCr,
    colors: Seq<NamedColor>,
) -> bool {
    let entry = colors[found.index as int];
    &&& is_nearest(target, colors, found.index as int)
    &&& found.name@ == entry.name@
    &&& found.distance_sq == distance_sq(target, entry.ycbcr)
    &&& found.distance == distance(target, entry.ycbcr)
    &&& found.hex@ == format_hex(rgb_of(entry.ycbcr))
}

/// Finds the entry nearest to `target` in one pass, the first among equals.
///
/// Fails exactly on an empty catalogue.
pub fn find_closest_color<'a>(target: ColorYCbCr, named_colors: &'a [NamedColor]) -> (res: Result<
    ClosestColor<'a>,
    SearchError,
>)
    ensures
        match res {
            Err(e) => named_colors@.len() == 0 && e == SearchError::EmptyCatalog,
            Ok(found) => named_colors@.len() > 0 && reports_nearest(found, target, named_colors@),
        },
{
    if named_colors.len() == 0 {
        return Err(SearchError::EmptyCatalog);
    }
    let mut best: usize = 0;
    let mut min_distance_sq: u128 = color_distance_sq(target, named_colors[0].ycbcr);
    let mut i: usize = 1;
    while i < named_colors.len()
        invariant
            0 <= best < i <= named_colors@.len(),
            min_distance_sq == distance_sq_to(target, named_colors@, best as int),
            is_nearest(target, named_colors@.take(i as int), best as int),
        decreases named_colors@.len() - i,
    {
        let distance_sq = color_distance_sq(target, named_colors[i].ycbcr);
        proof {
            let before = named_colors@.take(i as int);
            let after = named_colors@.take(i + 1);
            assert forall|j: int| 0 <= j < i implies distance_sq_to(target, after, j)
                == distance_sq_to(target, before, j) by {}
            assert(distance_sq_to(target, after, i as int) == distance_sq);
        }
        if distance_sq < min_distance_sq {
            min_distance_sq = distance_sq;
            best = i;
        }
        i += 1;
    }
    assert(named_colors@.take(i as int) =~= named_colors@);
    let entry = &named_colors[best];
    Ok(
        ClosestColor {
            name: entry.name.as_str(),
            index: best,
            distance_sq: min_distance_sq,
            distance: isqrt(min_distance_sq),
            hex: convert_hex(entry.ycbcr),
        },
    )
}

/// A catalogue has at most one nearest entry.
pub proof fn lemma_nearest_unique(target: ColorYCbCr, colors: Seq<NamedColor>, i: int, j: int)
    requires
        is_nearest(target, colors, i),
        is_nearest(target, colors, j),
    ensures
        i == j,
{
    if i < j {
        assert(distance_sq_to(target, colors, i) > distance_sq_to(target, colors, j));
        assert(distance_sq_to(target, colors, j) >= distance_sq_to(target, colors, i));
    } else if j < i {
        assert(distance_sq_to(target, colors, j) > distance_sq_to(target, colors, i));
        assert(distance_sq_to(target, colors, i) >= distance_sq_to(target, colors, j));
    }
}

/// Of two entries with the same colour, the later one is never the
/// nearest: a search that finds their colour returns the first.
pub proof fn lemma_first_duplicate_wins(
    target: ColorYCbCr,
    colors: Seq<NamedColor>,
    first: int,
    second: int,
)
    requires
        0 <= first < second < colors.len(),
        colors[first].ycbcr == colors[second].ycbcr,
    ensures
        !is_nearest(target, colors, second),
{
    assert(distance_sq_to(target, colors, first) == distance_sq_to(target, colors, second));
}

} // verus!
