//! Building the catalogue from the rows of a colour table.

use vstd::prelude::*;
use vstd::string::*;
use crate::hex::{hex_to_rgb, parse_hex, ColorRGB, HexError};
use crate::search::NamedColor;
use crate::ycbcr::{convert_ycbcr, ycbcr_of, ColorYCbCr};

verus! {

/// One row of the colour table: a display name and a hex colour, with or
/// without its leading `#`.
#[derive(Clone, Debug)]
pub struct CsvColorRecord {
    pub name: String,
    pub hex: String,
}

/// A row that was left out of the catalogue, and why.
#[derive(Clone, Debug)]
pub struct SkippedRow {
    /// The row's position in the table, from zero.
    pub row: usize,
    /// The row's display name.
    pub name: String,
    /// What is wrong with the row's hex colour.
    pub error: HexError,
}

/// What a colour table gives: the catalogue, and the rows left out of it.
#[derive(Debug)]
pub struct LoadedColors {
    pub colors: Vec<NamedColor>,
    pub skipped: Vec<SkippedRow>,
}

/// A table's hex colour with its `#`: unchanged where it starts with one,
/// else with one put in front.
pub open spec fn with_hash(hex: Seq<char>) -> Seq<char> {
    if hex.len() > 0 && hex[0] == '#' {
        hex
    } else {
        seq!['#'] + hex
    }
}

/// The point of a row's colour, or why the row has none.
pub open spec fn row_point(hex: Seq<char>) -> Result<ColorYCbCr, HexError> {
    match parse_hex(with_hash(hex)) {
        Ok(rgb) => Ok(ycbcr_of(rgb)),
        Err(e) => Err(e),
    }
}

/// The catalogue of a table, as names and points: the rows whose colour
/// parses, in the table's order.
pub open spec fn kept_rows(records: Seq<CsvColorRecord>) -> Seq<(Seq<char>, ColorYCbCr)>
    decreases records.len(),
{
    if records.len() == 0 {
        seq![]
    } else {
        let row = records.last();
        let before = kept_rows(records.drop_last());
        match row_point(row.hex@) {
            Ok(point) => before.push((row.name@, point)),
            Err(_) => before,
        }
    }
}

/// The rows of a table that its catalogue leaves out, in the table's order:
/// each with its position, its name and the error of its colour.
pub open spec fn skipped_rows(records: Seq<CsvColorRecord>) -> Seq<(int, Seq<char>, HexError)>
    decreases records.len(),
{
    if records.len() == 0 {
        seq![]
    } else {
        let row = records.last();
        let before = skipped_rows(records.drop_last());
        match row_point(row.hex@) {
            Ok(_) => before,
            Err(e) => before.push((records.len() - 1, row.name@, e)),
        }
    }
}

/// A catalogue as names and points.
pub open spec fn named_points(colors: Seq<NamedColor>) -> Seq<(Seq<char>, ColorYCbCr)> {
    Seq::new(colors.len(), |i: int| (colors[i].name@, colors[i].ycbcr))
}

/// Skipped rows as positions, names and errors.
pub open spec fn skipped_points(skipped: Seq<SkippedRow>) -> Seq<(int, Seq<char>, HexError)> {
    Seq::new(skipped.len(), |i: int| (skipped[i].row as int, skipped[i].name@, skipped[i].error))
}

/// Parses a table's hex colour, with or without its leading `#`.
pub fn parse_table_hex(hex: &str) -> (res: Result<ColorRGB, HexError>)
    ensures
        res == parse_hex(with_hash(hex@)),
{
    if hex.unicode_len() > 0 && hex.get_char(0) == '#' {
        hex_to_rgb(hex)
    } else {
        proof {
            reveal_strlit("#");
        }
        let prefixed = String::from_str("#").concat(hex);
        hex_to_rgb(prefixed.as_str())
    }
}

/// Builds the catalogue from the rows of a table: each row whose colour
/// parses becomes an entry, in the table's order; every other row is left
/// out and reported with its error.
pub fn load_and_process_colors(records: &[CsvColorRecord]) -> (loaded: LoadedColors)
    ensures
        named_points(loaded.colors@) == kept_rows(records@),
        skipped_points(loaded.skipped@) == skipped_rows(records@),
{
    let mut colors: Vec<NamedColor> = Vec::new();
    let mut skipped: Vec<SkippedRow> = Vec::new();
    let mut i: usize = 0;
    assert(records@.take(0) =~= seq![]);
    assert(named_points(colors@) =~= kept_rows(records@.take(0)));
    assert(skipped_points(skipped@) =~= skipped_rows(records@.take(0)));
    while i < records.len()
        invariant
            i <= records@.len(),
            named_points(colors@) == kept_rows(records@.take(i as int)),
            skipped_points(skipped@) == skipped_rows(records@.take(i as int)),
        decreases records@.len() - i,
    {
        let record = &records[i];
        proof {
            let upto = records@.take(i + 1);
            assert(upto.drop_last() =~= records@.take(i as int));
            assert(upto.last() == records@[i as int]);
        }
        let ghost colors_before = colors@;
        let ghost skipped_before = skipped@;
        match parse_table_hex(record.hex.as_str()) {
            Ok(rgb) => {
                let entry = NamedColor { name: record.name.clone(), ycbcr: convert_ycbcr(rgb) };
                colors.push(entry);
                assert(named_points(colors@) =~= named_points(colors_before).push(
                    (record.name@, ycbcr_of(rgb)),
                ));
            },
            Err(error) => {
                skipped.push(SkippedRow { row: i, name: record.name.clone(), error });
                assert(skipped_points(skipped@) =~= skipped_points(skipped_before).push(
                    (i as int, record.name@, error),
                ));
            },
        }
        i += 1;
    }
    assert(records@.take(i as int) =~= records@);
    LoadedColors { colors, skipped }
}

/// Every row of a table is either kept or skipped, never both.
pub proof fn lemma_rows_partition(records: Seq<CsvColorRecord>)
    ensures
        kept_rows(records).len() + skipped_rows(records).len() == records.len(),
    decreases records.len(),
{
    if records.len() > 0 {
        lemma_rows_partition(records.drop_last());
    }
}

/// Every entry of a catalogue comes from a row of its table whose colour
/// parses: the entry has that row's name and the point of its colour.
pub proof fn lemma_kept_rows_parse(records: Seq<CsvColorRecord>, k: int)
    requires
        0 <= k < kept_rows(records).len(),
    ensures
        exists|i: int|
            0 <= i < records.len() && #[trigger] records[i].name@ == kept_rows(records)[k].0
                && row_point(records[i].hex@) == Ok::<ColorYCbCr, HexError>(
                kept_rows(records)[k].1,
            ),
    decreases records.len(),
{
    let before = records.drop_last();
    let last = records.len() - 1;
    if k < kept_rows(before).len() {
        lemma_kept_rows_parse(before, k);
        let i = choose|i: int|
            0 <= i < before.len() && #[trigger] before[i].name@ == kept_rows(before)[k].0
                && row_point(before[i].hex@) == Ok::<ColorYCbCr, HexError>(kept_rows(before)[k].1);
        assert(records[i] == before[i]);
    } else {
        assert(records[last].name@ == kept_rows(records)[k].0);
    }
}

} // verus!
