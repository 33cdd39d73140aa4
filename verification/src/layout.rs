//! The two table formats that the OpenType layout tables share: the coverage
//! table, which lists a set of glyphs, and the class definition table, which
//! sorts glyphs into numbered classes.
//!
//! A table is kept as the bytes it was found in and decoded on each query.
//! A table that is cut short, or whose format number is unknown, lists no
//! glyph and has no class for any.

use crate::font::GlyphId;
use crate::parser::{be_u16, read_u16_at, u16_at};
use vstd::prelude::*;

verus! {

/// A glyph class: a raw 16-bit number, where 0 is the class of every glyph
/// that no class was assigned to.
#[derive(Clone, Copy, PartialEq, Eq, Debug, Structural)]
pub struct Class(pub u16);

/// The number of entries that a table announces in the field at offset 2.
pub open spec fn entry_count(table: Seq<u8>) -> int {
    be_u16(table, 2) as int
}

/// Glyph `i` of the glyph list of a format 1 coverage table.
pub open spec fn listed_glyph(table: Seq<u8>, i: int) -> u16 {
    be_u16(table, 4 + 2 * i)
}

/// Whether the table holds all the glyphs that it announces.
pub open spec fn has_glyph_list(table: Seq<u8>) -> bool {
    table.len() >= 4 + 2 * entry_count(table)
}

/// Whether the glyph list of the table names `glyph`.
pub open spec fn glyph_list_names(table: Seq<u8>, glyph: u16) -> bool {
    exists|i: int| 0 <= i < entry_count(table) && #[trigger] listed_glyph(table, i) == glyph
}

/// First glyph of range record `i`. Format 2 of both tables is a list of
/// such records, six bytes each, from offset 4 on.
pub open spec fn range_start(table: Seq<u8>, i: int) -> u16 {
    be_u16(table, 4 + 6 * i)
}

/// Last glyph of range record `i`.
pub open spec fn range_end(table: Seq<u8>, i: int) -> u16 {
    be_u16(table, 6 + 6 * i)
}

/// The number that range record `i` carries: the class of its glyphs in a
/// class definition table.
pub open spec fn range_value(table: Seq<u8>, i: int) -> u16 {
    be_u16(table, 8 + 6 * i)
}

/// Whether range record `i` spans `glyph`.
pub open spec fn in_range(table: Seq<u8>, i: int, glyph: u16) -> bool {
    range_start(table, i) <= glyph <= range_end(table, i)
}

/// Whether the table holds all the range records that it announces.
pub open spec fn has_range_records(table: Seq<u8>) -> bool {
    table.len() >= 4 + 6 * entry_count(table)
}

/// Whether some range record of the table spans `glyph`.
pub open spec fn some_range_spans(table: Seq<u8>, glyph: u16) -> bool {
    exists|i: int| 0 <= i < entry_count(table) && #[trigger] in_range(table, i, glyph)
}

/// Whether `i` is the first range record of the table that spans `glyph`.
pub open spec fn is_first_range(table: Seq<u8>, i: int, glyph: u16) -> bool {
    &&& 0 <= i < entry_count(table)
    &&& in_range(table, i, glyph)
    &&& forall|j: int| 0 <= j < i ==> !#[trigger] in_range(table, j, glyph)
}

/// The first range record that spans `glyph`, where there is one.
pub open spec fn first_range(table: Seq<u8>, glyph: u16) -> int {
    choose|i: int| is_first_range(table, i, glyph)
}

/// Whether the coverage table in `table` lists `glyph`.
///
/// Format 1 is a counted list of glyphs. Format 2 is a counted list of
/// range records, and lists every glyph that one of them spans.
pub open spec fn coverage_contains(table: Seq<u8>, glyph: u16) -> bool {
    if table.len() < 4 {
        false
    } else if be_u16(table, 0) == 1 {
        has_glyph_list(table) && glyph_list_names(table, glyph)
    } else if be_u16(table, 0) == 2 {
        has_range_records(table) && some_range_spans(table, glyph)
    } else {
        false
    }
}

/// The glyphs that the coverage table in `table` lists.
pub open spec fn covered_glyphs(table: Seq<u8>) -> Set<u16> {
    Set::new(|glyph: u16| coverage_contains(table, glyph))
}

/// The class that the class definition table in `table` assigns to `glyph`
/// by an entry of its own, or `None` where it has no entry for the glyph.
///
/// Format 1 gives a first glyph and a counted list of classes, one for each
/// glyph from the first on. Format 2 is a counted list of range records; the
/// first one that spans the glyph gives its class.
pub open spec fn class_entry(table: Seq<u8>, glyph: u16) -> Option<u16> {
    if table.len() < 2 {
        None
    } else if be_u16(table, 0) == 1 {
        let first = be_u16(table, 2);
        let count = be_u16(table, 4);
        if table.len() >= 6 + 2 * count && first <= glyph < first + count {
            Some(be_u16(table, 6 + 2 * (glyph - first)))
        } else {
            None
        }
    } else if be_u16(table, 0) == 2 {
        if has_range_records(table) && some_range_spans(table, glyph) {
            Some(range_value(table, first_range(table, glyph)))
        } else {
            None
        }
    } else {
        None
    }
}

/// The class of `glyph`: that of its entry, or 0 where it has none.
pub open spec fn class_of(table: Seq<u8>, glyph: u16) -> u16 {
    match class_entry(table, glyph) {
        Some(class) => class,
        None => 0,
    }
}

/// The index of the first of the `count` range records of `data` that spans
/// `glyph`.
fn find_range(data: &[u8], count: usize, glyph: u16) -> (found: Option<usize>)
    requires
        count == entry_count(data@),
        has_range_records(data@),
    ensures
        match found {
            Some(i) => is_first_range(data@, i as int, glyph),
            None => !some_range_spans(data@, glyph),
        },
{
    let mut i: usize = 0;
    while i < count
        invariant
            i <= count,
            count == entry_count(data@),
            has_range_records(data@),
            forall|j: int| 0 <= j < i ==> !#[trigger] in_range(data@, j, glyph),
        decreases count - i,
    {
        let start: u16 = u16_at(data, 4 + 6 * i);
        let end: u16 = u16_at(data, 6 + 6 * i);
        if start <= glyph && glyph <= end {
            return Some(i);
        }
        i = i + 1;
    }
    None
}

/// Whether one of the `count` glyphs of the glyph list of `data` is `glyph`.
fn names_glyph(data: &[u8], count: usize, glyph: u16) -> (found: bool)
    requires
        count == entry_count(data@),
        has_glyph_list(data@),
    ensures
        found == glyph_list_names(data@, glyph),
{
    let mut i: usize = 0;
    while i < count
        invariant
            i <= count,
            count == entry_count(data@),
            has_glyph_list(data@),
            forall|j: int| 0 <= j < i ==> #[trigger] listed_glyph(data@, j) != glyph,
        decreases count - i,
    {
        if u16_at(data, 4 + 2 * i) == glyph {
            assert(listed_glyph(data@, i as int) == glyph);
            return true;
        }
        i = i + 1;
    }
    false
}

/// A coverage table: a set of glyphs.
#[derive(Clone, Copy)]
pub struct CoverageTable<'a> {
    data: &'a [u8],
}

impl<'a> View for CoverageTable<'a> {
    type V = Seq<u8>;

    closed spec fn view(&self) -> Seq<u8> {
        self.data@
    }
}

impl<'a> CoverageTable<'a> {
    /// The coverage table that starts at the first byte of `data`. Nothing
    /// is decoded yet.
    pub fn new(data: &'a [u8]) -> (table: Self)
        ensures
            table@ == data@,
    {
        CoverageTable { data }
    }

    /// Whether the table lists `glyph_id`.
    pub fn contains(&self, glyph_id: GlyphId) -> (found: bool)
        ensures
            found == coverage_contains(self@, glyph_id.0),
            found == covered_glyphs(self@).contains(glyph_id.0),
    {
        let data = self.data;
        let glyph: u16 = glyph_id.0;
        let format: u16 = match read_u16_at(data, 0) {
            Some(format) => format,
            None => { return false; },
        };
        let count: usize = match read_u16_at(data, 2) {
            Some(count) => count as usize,
            None => { return false; },
        };
        if format == 1 {
            if data.len() - 4 < 2 * count {
                return false;
            }
            names_glyph(data, count, glyph)
        } else if format == 2 {
            if data.len() - 4 < 6 * count {
                return false;
            }
            find_range(data, count, glyph).is_some()
        } else {
            false
        }
    }
}

/// A class definition table: a class for every glyph.
#[derive(Clone, Copy)]
pub struct ClassDefinitionTable<'a> {
    data: &'a [u8],
}

impl<'a> View for ClassDefinitionTable<'a> {
    type V = Seq<u8>;

    closed spec fn view(&self) -> Seq<u8> {
        self.data@
    }
}

impl<'a> ClassDefinitionTable<'a> {
    /// The class definition table that starts at the first byte of `data`.
    /// Nothing is decoded yet.
    pub fn new(data: &'a [u8]) -> (table: Self)
        ensures
            table@ == data@,
    {
        ClassDefinitionTable { data }
    }

    /// The class of `glyph_id`. A glyph that the table has no entry for is
    /// of class 0.
    pub fn get(&self, glyph_id: GlyphId) -> (class: Class)
        ensures
            class.0 == class_of(self@, glyph_id.0),
    {
        match self.entry(glyph_id) {
            Some(class) => class,
            None => Class(0),
        }
    }

    /// The class that an entry of the table assigns to `glyph_id`.
    fn entry(&self, glyph_id: GlyphId) -> (class: Option<Class>)
        ensures
            match class {
                Some(class) => class_entry(self@, glyph_id.0) == Some(class.0),
                None => class_entry(self@, glyph_id.0) is None,
            },
    {
        let data = self.data;
        let glyph: u16 = glyph_id.0;
        let format: u16 = read_u16_at(data, 0)?;
        if format == 1 {
            let first: u16 = read_u16_at(data, 2)?;
            if glyph < first {
                return None;
            }
            let count: usize = read_u16_at(data, 4)? as usize;
            if data.len() - 6 < 2 * count {
                return None;
            }
            let index: usize = (glyph - first) as usize;
            if index >= count {
                return None;
            }
            Some(Class(u16_at(data, 6 + 2 * index)))
        } else if format == 2 {
            let count: usize = read_u16_at(data, 2)? as usize;
            if data.len() - 4 < 6 * count {
                return None;
            }
            let i: usize = find_range(data, count, glyph)?;
            Some(Class(u16_at(data, 8 + 6 * i)))
        } else {
            None
        }
    }
}

} // verus!
