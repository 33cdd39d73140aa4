//! The font facade and the glyph identifier that its queries are keyed by.

use crate::gdef::{table_view, Table, TableView};
use vstd::prelude::*;

verus! {

/// The index of a glyph within a font. Whether the font has a glyph of that
/// index is for the caller to know.
#[derive(Clone, Copy, PartialEq, Eq, Debug, Structural)]
pub struct GlyphId(pub u16);

/// What a font is to its queries: the tables that were resolved when it was
/// loaded.
pub struct FontView {
    /// The glyph definition table, where the font has a usable one.
    pub gdef: Option<TableView>,
}

/// A font, as far as the glyph definition queries need it. It borrows the
/// bytes it was loaded from and never changes.
#[derive(Clone, Copy)]
pub struct Font<'a> {
    gdef: Option<Table<'a>>,
}

impl<'a> View for Font<'a> {
    type V = FontView;

    closed spec fn view(&self) -> FontView {
        FontView { gdef: table_view(self.gdef) }
    }
}

impl<'a> Font<'a> {
    /// A font with the given glyph definition table, or with none.
    pub fn new(gdef: Option<Table<'a>>) -> (font: Self)
        ensures
            font@.gdef == table_view(gdef),
    {
        Font { gdef }
    }

    /// The glyph definition table of the font.
    pub fn gdef(&self) -> (table: Option<Table<'a>>)
        ensures
            table_view(table) == self@.gdef,
    {
        self.gdef
    }
}

} // verus!
