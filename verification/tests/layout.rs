use ttf_gdef::layout::{ClassDefinitionTable, CoverageTable};
use ttf_gdef::{Class, GlyphId};

#[test]
fn glyph_list_lists_its_glyphs() {
    let data = [0u8, 1, 0, 3, 0, 4, 0, 9, 1, 0];
    let table = CoverageTable::new(&data);
    for glyph in 0..300 {
        let expected = glyph == 4 || glyph == 9 || glyph == 256;
        assert_eq!(table.contains(GlyphId(glyph)), expected, "glyph {}", glyph);
    }
}

#[test]
fn glyph_list_need_not_be_in_order() {
    let data = [0u8, 1, 0, 4, 0, 9, 0, 4, 0, 30, 0, 4];
    let table = CoverageTable::new(&data);
    assert!(table.contains(GlyphId(9)));
    assert!(table.contains(GlyphId(4)));
    assert!(table.contains(GlyphId(30)));
    assert!(!table.contains(GlyphId(5)));
    assert!(!table.contains(GlyphId(0)));
}

#[test]
fn glyph_list_ends_with_its_count() {
    // two glyphs are announced; what follows them is not of the list
    let data = [0u8, 1, 0, 2, 0, 4, 0, 9, 0, 7, 0, 8];
    let table = CoverageTable::new(&data);
    assert!(table.contains(GlyphId(4)));
    assert!(table.contains(GlyphId(9)));
    assert!(!table.contains(GlyphId(7)));
    assert!(!table.contains(GlyphId(8)));
}

#[test]
fn empty_glyph_list_lists_nothing() {
    let data = [0u8, 1, 0, 0, 0, 4];
    let table = CoverageTable::new(&data);
    assert!(!table.contains(GlyphId(0)));
    assert!(!table.contains(GlyphId(4)));
}

#[test]
fn glyph_ranges_include_both_ends() {
    let data = [0u8, 2, 0, 2, 0, 10, 0, 12, 0, 0, 0, 20, 0, 20, 0, 3];
    let table = CoverageTable::new(&data);
    for glyph in 0..40 {
        let expected = (10..=12).contains(&glyph) || glyph == 20;
        assert_eq!(table.contains(GlyphId(glyph)), expected, "glyph {}", glyph);
    }
}

#[test]
fn glyph_range_may_span_every_glyph() {
    let data = [0u8, 2, 0, 1, 0, 0, 0xFF, 0xFF, 0, 0];
    let table = CoverageTable::new(&data);
    assert!(table.contains(GlyphId(0)));
    assert!(table.contains(GlyphId(0x8000)));
    assert!(table.contains(GlyphId(0xFFFF)));
}

#[test]
fn glyph_range_that_ends_before_it_starts_is_empty() {
    let data = [0u8, 2, 0, 1, 0, 12, 0, 10, 0, 0];
    let table = CoverageTable::new(&data);
    for glyph in 9..14 {
        assert!(!table.contains(GlyphId(glyph)));
    }
}

#[test]
fn cut_coverage_table_lists_nothing() {
    let list = [0u8, 1, 0, 2, 0, 4, 0, 9];
    for len in 0..list.len() {
        let table = CoverageTable::new(&list[..len]);
        assert!(!table.contains(GlyphId(4)), "length {}", len);
        assert!(!table.contains(GlyphId(0)), "length {}", len);
    }
    assert!(CoverageTable::new(&list).contains(GlyphId(4)));
    let ranges = [0u8, 2, 0, 2, 0, 10, 0, 12, 0, 0, 0, 20, 0, 20, 0, 3];
    for len in 0..ranges.len() {
        let table = CoverageTable::new(&ranges[..len]);
        assert!(!table.contains(GlyphId(10)), "length {}", len);
    }
    assert!(CoverageTable::new(&ranges).contains(GlyphId(10)));
}

#[test]
fn coverage_table_of_unknown_format_lists_nothing() {
    for format in [0u8, 3, 4, 0xFF] {
        let data = [0u8, format, 0, 1, 0, 4, 0, 4, 0, 0];
        let table = CoverageTable::new(&data);
        assert!(!table.contains(GlyphId(4)), "format {}", format);
    }
    // the format is a 16-bit number
    let data = [1u8, 1, 0, 1, 0, 4];
    assert!(!CoverageTable::new(&data).contains(GlyphId(4)));
    let data = [1u8, 2, 0, 1, 0, 4, 0, 4, 0, 0];
    assert!(!CoverageTable::new(&data).contains(GlyphId(4)));
}

#[test]
fn class_list_gives_a_class_to_each_glyph_in_turn() {
    let data = [0u8, 1, 0, 100, 0, 3, 0, 7, 0, 0, 0xFF, 0xFF];
    let table = ClassDefinitionTable::new(&data);
    assert_eq!(table.get(GlyphId(99)), Class(0));
    assert_eq!(table.get(GlyphId(100)), Class(7));
    assert_eq!(table.get(GlyphId(101)), Class(0));
    assert_eq!(table.get(GlyphId(102)), Class(0xFFFF));
    assert_eq!(table.get(GlyphId(103)), Class(0));
    assert_eq!(table.get(GlyphId(0)), Class(0));
    assert_eq!(table.get(GlyphId(0xFFFF)), Class(0));
}

#[test]
fn class_ranges_give_the_class_of_the_first_range() {
    let data = [
        0u8, 2, 0, 3, //
        0, 10, 0, 20, 0, 1, //
        0, 15, 0, 30, 0, 2, //
        0, 0, 0xFF, 0xFF, 0, 9,
    ];
    let table = ClassDefinitionTable::new(&data);
    assert_eq!(table.get(GlyphId(9)), Class(9));
    assert_eq!(table.get(GlyphId(10)), Class(1));
    assert_eq!(table.get(GlyphId(15)), Class(1));
    assert_eq!(table.get(GlyphId(20)), Class(1));
    assert_eq!(table.get(GlyphId(21)), Class(2));
    assert_eq!(table.get(GlyphId(30)), Class(2));
    assert_eq!(table.get(GlyphId(31)), Class(9));
    assert_eq!(table.get(GlyphId(0xFFFF)), Class(9));
}

#[test]
fn empty_class_definition_table_has_class_zero_only() {
    let tables = [
        &[][..],
        &[0u8][..],
        &[0u8, 1][..],
        &[0u8, 2][..],
        &[0u8, 1, 0, 0, 0, 0][..],
        &[0u8, 2, 0, 0][..],
    ];
    for data in tables {
        let table = ClassDefinitionTable::new(data);
        for glyph in [0u16, 1, 2, 0xFFFF] {
            assert_eq!(table.get(GlyphId(glyph)), Class(0));
        }
    }
}
