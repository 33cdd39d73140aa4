//! The Glyph Definition table.
//!
//! The table starts with a versioned header of offsets to its subtables.
//! Three of them are resolved here: the glyph class definitions, the mark
//! attachment class definitions and the mark glyph sets. A buffer that
//! starts with a supported version number always holds a table. A subtable
//! is absent from it where the buffer ends before the field of its offset,
//! where the offset is zero or leads past the end of the buffer, and, for
//! the mark glyph sets, where the format is unknown or the subtable is cut
//! short; the rest of the table is still used.

use crate::font::{Font, GlyphId};
use crate::layout::{
    class_entry, class_of, coverage_contains, entry_count, Class, ClassDefinitionTable,
    CoverageTable,
};
use crate::parser::{
    be_u16, be_u32, optional_offset, tail, tail_from, Offset32Array, Stream,
};
use vstd::prelude::*;

verus! {

/// The class of a glyph according to the glyph class definitions.
#[derive(Clone, Copy, PartialEq, Eq, Debug, Structural)]
pub enum GlyphClass {
    /// A single character, spacing glyph.
    Base,
    /// A glyph that stands for several characters.
    Ligature,
    /// A non-spacing combining glyph.
    Mark,
    /// A part of a single character.
    Component,
}

impl GlyphClass {
    /// The glyph class that the raw class `raw` stands for: 1 to 4 stand for
    /// the four classes in turn, every other number for none.
    pub open spec fn of_raw(raw: u16) -> Option<GlyphClass> {
        if raw == 1 {
            Some(GlyphClass::Base)
        } else if raw == 2 {
            Some(GlyphClass::Ligature)
        } else if raw == 3 {
            Some(GlyphClass::Mark)
        } else if raw == 4 {
            Some(GlyphClass::Component)
        } else {
            None
        }
    }

    /// The number that stands for the class in a class definition table.
    pub open spec fn raw(self) -> u16 {
        match self {
            GlyphClass::Base => 1,
            GlyphClass::Ligature => 2,
            GlyphClass::Mark => 3,
            GlyphClass::Component => 4,
        }
    }

    /// The glyph class that the raw class `raw` stands for.
    pub fn from_raw(raw: u16) -> (class: Option<GlyphClass>)
        ensures
            class == Self::of_raw(raw),
            class is Some <==> 1 <= raw <= 4,
    {
        match raw {
            1 => Some(GlyphClass::Base),
            2 => Some(GlyphClass::Ligature),
            3 => Some(GlyphClass::Mark),
            4 => Some(GlyphClass::Component),
            _ => None,
        }
    }

    /// The number that stands for the class in a class definition table.
    pub fn to_raw(self) -> (raw: u16)
        ensures
            raw == self.raw(),
            Self::of_raw(raw) == Some(self),
    {
        match self {
            GlyphClass::Base => 1,
            GlyphClass::Ligature => 2,
            GlyphClass::Mark => 3,
            GlyphClass::Component => 4,
        }
    }
}

/// The mark glyph sets of a table: the bytes of the subtable and the offsets
/// of its coverage tables, counted from the start of the subtable, in stored
/// order.
pub struct MarkGlyphSetsView {
    /// The bytes of the subtable, from its first byte to the end of the
    /// buffer.
    pub base: Seq<u8>,
    /// The offsets of the coverage tables, one for each set.
    pub offsets: Seq<u32>,
}

impl MarkGlyphSetsView {
    /// Whether offset `i` leads to a place in the subtable. The place just
    /// behind its last byte counts; the coverage table there is empty.
    pub open spec fn resolves(self, i: int) -> bool {
        tail_from(self.base, self.offsets[i] as int) is Some
    }

    /// The bytes of the coverage table of set `i`: from its offset to the
    /// end of the subtable.
    pub open spec fn coverage(self, i: int) -> Seq<u8> {
        self.base.skip(self.offsets[i] as int)
    }

    /// Whether there is a set `i`, its offset resolves and its coverage
    /// table lists `glyph`.
    pub open spec fn set_contains(self, i: int, glyph: u16) -> bool {
        &&& 0 <= i < self.offsets.len()
        &&& self.resolves(i)
        &&& coverage_contains(self.coverage(i), glyph)
    }

    /// Whether a scan in stored order gets as far as set `i`: it does not
    /// get past an offset that does not resolve.
    pub open spec fn scan_reaches(self, i: int) -> bool {
        forall|j: int| 0 <= j < i ==> #[trigger] self.resolves(j)
    }

    /// Whether a scan in stored order finds `glyph`: in a set that lists it
    /// and that the scan reaches.
    pub open spec fn scan_finds(self, glyph: u16) -> bool {
        exists|i: int| self.scan_reaches(i) && #[trigger] self.set_contains(i, glyph)
    }

    /// The union of the sets that come before the first offset that does
    /// not resolve.
    pub open spec fn scanned_glyphs(self) -> Set<u16> {
        Set::new(|glyph: u16| self.scan_finds(glyph))
    }

    /// A scan finds the glyphs of the sets before `cut` and no others, where
    /// `cut` is the first set whose offset does not resolve, or the number
    /// of sets where every offset resolves. A set at or behind `cut` adds
    /// nothing, whatever it lists.
    pub proof fn lemma_scan_is_union_before(self, cut: int, glyph: u16)
        requires
            0 <= cut <= self.offsets.len(),
            forall|i: int| 0 <= i < cut ==> self.resolves(i),
            cut < self.offsets.len() ==> !self.resolves(cut),
        ensures
            self.scanned_glyphs().contains(glyph) <==> exists|i: int|
                0 <= i < cut && self.set_contains(i, glyph),
    {
    }

    /// No set is found at an index from the number of sets on.
    pub proof fn lemma_no_set_behind_last(self, index: int, glyph: u16)
        requires
            index >= self.offsets.len(),
        ensures
            !self.set_contains(index, glyph),
    {
    }
}

/// What a resolved table holds: the bytes of each subtable that is present.
pub struct TableView {
    /// The glyph class definitions, a class definition table.
    pub glyph_classes: Option<Seq<u8>>,
    /// The mark attachment class definitions, a class definition table.
    pub mark_attach_classes: Option<Seq<u8>>,
    /// The mark glyph sets.
    pub mark_glyph_sets: Option<MarkGlyphSetsView>,
}

impl TableView {
    /// The glyph class of `glyph`: the one that its raw class stands for.
    pub open spec fn glyph_class(self, glyph: u16) -> Option<GlyphClass> {
        match self.glyph_classes {
            Some(classes) => GlyphClass::of_raw(class_of(classes, glyph)),
            None => None,
        }
    }

    /// The mark attachment class of `glyph`, 0 where nothing assigns one.
    pub open spec fn mark_attachment_class(self, glyph: u16) -> u16 {
        match self.mark_attach_classes {
            Some(classes) => class_of(classes, glyph),
            None => 0,
        }
    }

    /// Whether `glyph` is in mark glyph set `index`, or, without an index,
    /// whether a scan of all the sets finds it.
    pub open spec fn is_mark_glyph(self, glyph: u16, index: Option<u16>) -> bool {
        match self.mark_glyph_sets {
            Some(sets) => match index {
                Some(index) => sets.set_contains(index as int, glyph),
                None => sets.scan_finds(glyph),
            },
            None => false,
        }
    }
}

/// Whether `version` is one of the three versions of the table that are
/// understood: 1.0, 1.2 and 1.3.
pub open spec fn is_supported_version(version: u32) -> bool {
    version == 0x0001_0000 || version == 0x0001_0002 || version == 0x0001_0003
}

/// The bytes of the subtable that the offset field at `field` leads to:
/// from the offset to the end of `data`. A field of zero leads nowhere, and
/// neither does a field that `data` does not hold whole.
pub open spec fn subtable(data: Seq<u8>, field: int) -> Option<Seq<u8>> {
    if field + 2 <= data.len() {
        match optional_offset(be_u16(data, field)) {
            Some(offset) => tail_from(data, offset as int),
            None => None,
        }
    } else {
        None
    }
}

/// The bytes of the mark glyph sets subtable, where the header has a field
/// for it and the field leads to one.
pub open spec fn mark_glyph_sets_subtable(data: Seq<u8>) -> Option<Seq<u8>> {
    if be_u32(data, 0) > 0x0001_0000 {
        subtable(data, 12)
    } else {
        None
    }
}

/// The mark glyph sets that the subtable `sub` holds. Format 1 is the only
/// one: a count at offset 2, then as many 32-bit offsets. A subtable that
/// does not hold all of them holds no sets.
pub open spec fn parsed_mark_glyph_sets(sub: Seq<u8>) -> Option<MarkGlyphSetsView> {
    if be_u16(sub, 0) == 1 && sub.len() >= 4 + 4 * entry_count(sub) {
        Some(
            MarkGlyphSetsView {
                base: sub,
                offsets: Seq::new(entry_count(sub) as nat, |i: int| be_u32(sub, 4 + 4 * i)),
            },
        )
    } else {
        None
    }
}

/// Whether `data` holds a table: it starts with the number of a supported
/// version. Nothing that follows the version can take the table away.
pub open spec fn holds_table(data: Seq<u8>) -> bool {
    data.len() >= 4 && is_supported_version(be_u32(data, 0))
}

/// The table that `data` holds, with each subtable that its header leads
/// to.
pub open spec fn parsed_table(data: Seq<u8>) -> Option<TableView> {
    if holds_table(data) {
        Some(
            TableView {
                glyph_classes: subtable(data, 4),
                mark_attach_classes: subtable(data, 10),
                mark_glyph_sets: match mark_glyph_sets_subtable(data) {
                    Some(sub) => parsed_mark_glyph_sets(sub),
                    None => None,
                },
            },
        )
    } else {
        None
    }
}

/// A buffer holds a table exactly when it starts with one of the three
/// supported version numbers, whatever follows its first four bytes and
/// however few they are.
pub proof fn lemma_table_exactly_for_supported_version(data: Seq<u8>)
    ensures
        parsed_table(data) is None <==> (data.len() < 4 || !is_supported_version(
            be_u32(data, 0),
        )),
{
}

/// The header of a version 1.0 table is its first twelve bytes, and no byte
/// behind them decides anything. Two buffers of one length that agree on
/// those bytes, as far as they have them, and start with that version both
/// hold a table; in both the same subtables are present and begin at the
/// same place, and neither has mark glyph sets.
pub proof fn lemma_version_1_0_header_is_twelve_bytes(a: Seq<u8>, b: Seq<u8>)
    requires
        a.len() >= 4,
        b.len() == a.len(),
        be_u32(a, 0) == 0x0001_0000,
        forall|i: int| 0 <= i < 12 && i < a.len() ==> a[i] == b[i],
    ensures
        parsed_table(a) matches Some(in_a) && parsed_table(b) matches Some(in_b) && {
            &&& in_a.mark_glyph_sets is None
            &&& in_b.mark_glyph_sets is None
            &&& match (in_a.glyph_classes, in_b.glyph_classes) {
                (Some(classes_a), Some(classes_b)) => classes_a.len() == classes_b.len(),
                (None, None) => true,
                _ => false,
            }
            &&& match (in_a.mark_attach_classes, in_b.mark_attach_classes) {
                (Some(classes_a), Some(classes_b)) => classes_a.len() == classes_b.len(),
                (None, None) => true,
                _ => false,
            }
        },
{
}

/// A table is there whatever becomes of its subtables: each of the three is
/// absent where the buffer ends before the field of its offset.
pub proof fn lemma_cut_header_leaves_subtables_absent(data: Seq<u8>)
    requires
        holds_table(data),
    ensures
        parsed_table(data) matches Some(table) && {
            &&& data.len() < 6 ==> table.glyph_classes is None
            &&& data.len() < 12 ==> table.mark_attach_classes is None
            &&& data.len() < 14 ==> table.mark_glyph_sets is None
        },
{
}

/// Mark glyph sets whose subtable is too short for a format number and a
/// count are absent, and the table is still there.
pub proof fn lemma_short_mark_glyph_sets_are_absent(data: Seq<u8>)
    requires
        holds_table(data),
        mark_glyph_sets_subtable(data) matches Some(sub) && sub.len() < 4,
    ensures
        parsed_table(data) matches Some(table) && table.mark_glyph_sets is None,
{
}

/// A resolved glyph definition table. It holds no bytes of its own, only
/// views into the buffer it was parsed from.
#[derive(Clone, Copy)]
pub struct Table<'a> {
    glyph_classes: Option<ClassDefinitionTable<'a>>,
    mark_attach_classes: Option<ClassDefinitionTable<'a>>,
    mark_glyph_coverage_offsets: Option<(&'a [u8], Offset32Array<'a>)>,
}

impl<'a> View for Table<'a> {
    type V = TableView;

    closed spec fn view(&self) -> TableView {
        TableView {
            glyph_classes: match self.glyph_classes {
                Some(classes) => Some(classes@),
                None => None,
            },
            mark_attach_classes: match self.mark_attach_classes {
                Some(classes) => Some(classes@),
                None => None,
            },
            mark_glyph_sets: match self.mark_glyph_coverage_offsets {
                Some((base, offsets)) => Some(
                    MarkGlyphSetsView { base: base@, offsets: offsets@ },
                ),
                None => None,
            },
        }
    }
}

/// The view of a table that may be absent.
pub open spec fn table_view(table: Option<Table<'_>>) -> Option<TableView> {
    match table {
        Some(table) => Some(table@),
        None => None,
    }
}

impl<'a> Default for Table<'a> {
    /// A table without any subtable.
    fn default() -> (table: Self)
        ensures
            table@ == (TableView {
                glyph_classes: None,
                mark_attach_classes: None,
                mark_glyph_sets: None,
            }),
    {
        Table { glyph_classes: None, mark_attach_classes: None, mark_glyph_coverage_offsets: None }
    }
}

impl<'a> Table<'a> {
    /// Resolves the table that starts at the first byte of `data`.
    ///
    /// There is a table exactly where the buffer starts with the number of
    /// a supported version. A subtable that cannot be resolved, for want of
    /// bytes or of a usable offset or format, is absent from the table and
    /// does not fail it. The header of version 1.0 has no field for the mark
    /// glyph sets, and none is read.
    pub fn parse(data: &'a [u8]) -> (table: Option<Self>)
        ensures
            table_view(table) == parsed_table(data@),
            table is Some <==> data@.len() >= 4 && is_supported_version(be_u32(data@, 0)),
            data@.len() >= 4 && be_u32(data@, 0) == 0x0001_0000 ==> (table matches Some(t)
                && t@.mark_glyph_sets is None),
    {
        let mut s = Stream::new(data);
        let version: u32 = s.read_u32()?;
        if !(version == 0x0001_0000 || version == 0x0001_0002 || version == 0x0001_0003) {
            return None;
        }
        // A read that fails leaves the stream in place and the offset absent.
        // Every read behind it then fails as well, as the stream never moves
        // back.
        let glyph_class_def_offset: Option<u16> = match s.read_offset16() {
            Some(offset) => offset,
            None => None,
        };
        s.skip(2);  // attachListOffset
        s.skip(2);  // ligCaretListOffset
        let mark_attach_class_def_offset: Option<u16> = match s.read_offset16() {
            Some(offset) => offset,
            None => None,
        };

        let mut mark_glyph_sets_def_offset: Option<u16> = None;
        if version > 0x0001_0000 {
            mark_glyph_sets_def_offset = match s.read_offset16() {
                Some(offset) => offset,
                None => None,
            };
        }
        let mut table = Table::default();

        if let Some(offset) = glyph_class_def_offset {
            if let Some(subdata) = tail(data, offset as usize) {
                table.glyph_classes = Some(ClassDefinitionTable::new(subdata));
            }
        }
        if let Some(offset) = mark_attach_class_def_offset {
            if let Some(subdata) = tail(data, offset as usize) {
                table.mark_attach_classes = Some(ClassDefinitionTable::new(subdata));
            }
        }
        if let Some(offset) = mark_glyph_sets_def_offset {
            if let Some(subdata) = tail(data, offset as usize) {
                let mut s = Stream::new(subdata);
                if let Some(format) = s.read_u16() {
                    if format == 1 {
                        if let Some(array) = s.read_offset32_array() {
                            assert(array@ =~= parsed_mark_glyph_sets(subdata@)->0.offsets);
                            table.mark_glyph_coverage_offsets = Some((subdata, array));
                        }
                    }
                }
            }
        }
        Some(table)
    }
}

impl<'a> Font<'a> {
    /// Whether the font has glyph class definitions.
    pub fn has_glyph_classes(&self) -> (present: bool)
        ensures
            present <==> (self@.gdef matches Some(table) && table.glyph_classes is Some),
    {
        match self.gdef() {
            Some(gdef) => gdef.glyph_classes.is_some(),
            None => false,
        }
    }

    /// The glyph class of `glyph_id` according to the glyph class
    /// definitions.
    ///
    /// There is none where the font has no glyph class definitions and where
    /// they give the glyph a raw class other than 1, 2, 3 or 4; a glyph
    /// without an entry has raw class 0.
    pub fn glyph_class(&self, glyph_id: GlyphId) -> (class: Option<GlyphClass>)
        ensures
            class == (match self@.gdef {
                Some(table) => table.glyph_class(glyph_id.0),
                None => None,
            }),
            class is Some <==> (self@.gdef matches Some(table) && table.glyph_classes matches Some(
                classes,
            ) && 1 <= class_of(classes, glyph_id.0) <= 4),
    {
        match self.gdef() {
            Some(gdef) => match gdef.glyph_classes {
                Some(classes) => GlyphClass::from_raw(classes.get(glyph_id).0),
                None => None,
            },
            None => None,
        }
    }

    /// The mark attachment class of `glyph_id` according to the mark
    /// attachment class definitions.
    ///
    /// It is the raw class, whatever its value, and class 0 where the font
    /// has no such definitions or they have no entry for the glyph.
    pub fn glyph_mark_attachment_class(&self, glyph_id: GlyphId) -> (class: Class)
        ensures
            class.0 == (match self@.gdef {
                Some(table) => table.mark_attachment_class(glyph_id.0),
                None => 0,
            }),
            !(self@.gdef matches Some(table) && table.mark_attach_classes matches Some(classes)
                && class_entry(classes, glyph_id.0) is Some) ==> class == Class(0),
    {
        match self.gdef() {
            Some(gdef) => match gdef.mark_attach_classes {
                Some(classes) => classes.get(glyph_id),
                None => Class(0),
            },
            None => Class(0),
        }
    }

    /// Whether `glyph_id` is a mark glyph according to the mark glyph sets.
    ///
    /// With a `set_index` only that set is looked at. Without one the sets
    /// are scanned in stored order, and the scan ends without a match at the
    /// first set whose offset does not resolve. The answer is `false` where
    /// the font has no mark glyph sets.
    pub fn is_mark_glyph(&self, glyph_id: GlyphId, set_index: Option<u16>) -> (found: bool)
        ensures
            found == (match self@.gdef {
                Some(table) => table.is_mark_glyph(glyph_id.0, set_index),
                None => false,
            }),
            set_index matches Some(index) && self@.gdef matches Some(table)
                && table.mark_glyph_sets matches Some(sets) && index >= sets.offsets.len()
                ==> !found,
            set_index is None ==> (found <==> (self@.gdef matches Some(table)
                && table.mark_glyph_sets matches Some(sets) && sets.scanned_glyphs().contains(
                glyph_id.0,
            ))),
    {
        let gdef = self.gdef();
        is_mark_glyph_impl(gdef.as_ref(), glyph_id, set_index).is_some()
    }
}

/// Looks `glyph_id` up in the mark glyph sets of `table`: `Some` where it is
/// found, `None` where it is not or there is nothing to look in.
fn is_mark_glyph_impl(table: Option<&Table>, glyph_id: GlyphId, set_index: Option<u16>) -> (found:
    Option<()>)
    ensures
        found is Some <==> (table matches Some(t) && t@.is_mark_glyph(glyph_id.0, set_index)),
{
    let (data, offsets) = table?.mark_glyph_coverage_offsets?;
    let ghost sets = MarkGlyphSetsView { base: data@, offsets: offsets@ };

    if let Some(set_index) = set_index {
        if let Some(offset) = offsets.get(set_index as usize) {
            let coverage = CoverageTable::new(tail(data, offset as usize)?);
            if coverage.contains(glyph_id) {
                return Some(());
            }
        }
    } else {
        let count: usize = offsets.len();
        let mut i: usize = 0;
        while i < count
            invariant
                i <= count,
                count == offsets@.len(),
                set_index is None,
                table matches Some(t) && t@.mark_glyph_sets == Some(sets),
                sets == (MarkGlyphSetsView { base: data@, offsets: offsets@ }),
                sets.scan_reaches(i as int),
                forall|j: int| 0 <= j < i ==> !#[trigger] sets.set_contains(j, glyph_id.0),
            decreases count - i,
        {
            let offset: u32 = match offsets.get(i) {
                Some(offset) => offset,
                None => { return None; },
            };
            let coverage = match tail(data, offset as usize) {
                Some(subdata) => CoverageTable::new(subdata),
                None => {
                    assert forall|k: int| sets.scan_reaches(k) implies !sets.set_contains(
                        k,
                        glyph_id.0,
                    ) by {
                        if k > i {
                            assert(sets.resolves(i as int));
                        }
                    }
                    return None;
                },
            };
            if coverage.contains(glyph_id) {
                assert(sets.set_contains(i as int, glyph_id.0));
                return Some(());
            }
            i = i + 1;
        }
    }

    None
}

} // verus!
