//! Parsing and querying of the OpenType Glyph Definition (`GDEF`) table.
//!
//! The table sorts the glyphs of a font into base, ligature, mark and
//! component glyphs, assigns marks to attachment classes and lists named
//! sets of mark glyphs. [`Table::parse`] resolves the subtables of a table
//! once; the queries of [`Font`] then answer from the borrowed bytes without
//! allocating. Malformed input never fails a query: it makes a subtable
//! absent, an answer `false` or a class 0.

pub mod font;
pub mod gdef;
pub mod layout;
pub mod parser;

pub use font::{Font, GlyphId};
pub use gdef::{GlyphClass, Table};
pub use layout::Class;
