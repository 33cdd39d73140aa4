use ttf_gdef::parser::{read_u16_at, read_u32_at, tail, Offset32Array, Stream};

#[test]
fn numbers_are_big_endian() {
    let data = [0x12u8, 0x34, 0x56, 0x78, 0x9A];
    assert_eq!(read_u16_at(&data, 0), Some(0x1234));
    assert_eq!(read_u16_at(&data, 1), Some(0x3456));
    assert_eq!(read_u16_at(&data, 3), Some(0x789A));
    assert_eq!(read_u32_at(&data, 0), Some(0x1234_5678));
    assert_eq!(read_u32_at(&data, 1), Some(0x3456_789A));
    assert_eq!(read_u16_at(&[0x00, 0x01], 0), Some(1));
    assert_eq!(read_u16_at(&[0x01, 0x00], 0), Some(256));
    assert_eq!(read_u32_at(&[0x00, 0x01, 0x00, 0x02], 0), Some(65538));
    assert_eq!(read_u32_at(&[0x01, 0x00, 0x00, 0x00], 0), Some(16_777_216));
}

#[test]
fn largest_numbers_are_read() {
    assert_eq!(read_u16_at(&[0xFF, 0xFF], 0), Some(u16::MAX));
    assert_eq!(read_u32_at(&[0xFF, 0xFF, 0xFF, 0xFF], 0), Some(u32::MAX));
    assert_eq!(read_u16_at(&[0, 0], 0), Some(0));
    assert_eq!(read_u32_at(&[0, 0, 0, 0], 0), Some(0));
}

#[test]
fn read_past_the_end_fails() {
    let data = [1u8, 2, 3, 4, 5];
    assert_eq!(read_u16_at(&data, 4), None);
    assert_eq!(read_u16_at(&data, 5), None);
    assert_eq!(read_u16_at(&data, usize::MAX), None);
    assert_eq!(read_u16_at(&data, usize::MAX - 1), None);
    assert_eq!(read_u32_at(&data, 2), None);
    assert_eq!(read_u32_at(&data, 5), None);
    assert_eq!(read_u32_at(&data, usize::MAX), None);
    assert_eq!(read_u32_at(&data, usize::MAX - 3), None);
    assert_eq!(read_u16_at(&[], 0), None);
    assert_eq!(read_u16_at(&[7], 0), None);
    assert_eq!(read_u32_at(&[], 0), None);
    assert_eq!(read_u32_at(&[7, 7, 7], 0), None);
}

#[test]
fn tail_starts_anywhere_up_to_the_end() {
    let data = [1u8, 2, 3];
    assert_eq!(tail(&data, 0), Some(&data[..]));
    assert_eq!(tail(&data, 1), Some(&data[1..]));
    assert_eq!(tail(&data, 2), Some(&[3u8][..]));
    assert_eq!(tail(&data, 3), Some(&[][..]));
    assert_eq!(tail(&data, 4), None);
    assert_eq!(tail(&data, usize::MAX), None);
    assert_eq!(tail(&[], 0), Some(&[][..]));
    assert_eq!(tail(&[], 1), None);
}

#[test]
fn stream_reads_fields_in_turn() {
    let data = [0x00u8, 0x01, 0x00, 0x02, 0xAB, 0xCD, 0x00, 0x00, 0x00, 0x07];
    let mut stream = Stream::new(&data);
    assert_eq!(stream.read_u32(), Some(0x0001_0002));
    assert_eq!(stream.read_u16(), Some(0xABCD));
    assert_eq!(stream.read_offset16(), Some(None));
    assert_eq!(stream.read_offset16(), Some(Some(7)));
    assert_eq!(stream.read_u16(), None);
    assert_eq!(stream.read_u32(), None);
    assert_eq!(stream.read_offset16(), None);
}

#[test]
fn failed_read_leaves_the_stream_in_place() {
    let data = [0x11u8, 0x22, 0x33];
    let mut stream = Stream::new(&data);
    assert_eq!(stream.read_u32(), None);
    assert_eq!(stream.read_u16(), Some(0x1122));
    assert_eq!(stream.read_u16(), None);
    assert_eq!(stream.read_offset16(), None);
    assert_eq!(stream.read_u16(), None);
}

#[test]
fn skip_moves_without_reading() {
    let data = [0x11u8, 0x22, 0x33, 0x44, 0x55, 0x66];
    let mut stream = Stream::new(&data);
    stream.skip(2);
    assert_eq!(stream.read_u16(), Some(0x3344));
    stream.skip(0);
    assert_eq!(stream.read_u16(), Some(0x5566));
    stream.skip(0);
    assert_eq!(stream.read_u16(), None);
}

#[test]
fn skip_may_pass_the_end() {
    let data = [0x11u8, 0x22, 0x33];
    let mut stream = Stream::new(&data);
    stream.skip(2);
    stream.skip(2);
    assert_eq!(stream.read_u16(), None);
    assert_eq!(stream.read_u32(), None);
    assert!(stream.read_offset32_array().is_none());
}

#[test]
fn counted_offsets_are_read_whole() {
    let data = [0xEEu8, 0x00, 0x02, 0x00, 0x00, 0x00, 0x0C, 0x12, 0x34, 0x56, 0x78, 0x00, 0x09];
    let mut stream = Stream::new(&data);
    stream.skip(1);
    let offsets = stream.read_offset32_array().unwrap();
    assert_eq!(offsets.len(), 2);
    assert_eq!(offsets.get(0), Some(12));
    assert_eq!(offsets.get(1), Some(0x1234_5678));
    assert_eq!(offsets.get(2), None);
    // the stream is behind the last offset
    assert_eq!(stream.read_u16(), Some(9));
}

#[test]
fn empty_counted_offsets_are_read() {
    let data = [0x00u8, 0x00, 0x00, 0x05];
    let mut stream = Stream::new(&data);
    let offsets = stream.read_offset32_array().unwrap();
    assert_eq!(offsets.len(), 0);
    assert_eq!(offsets.get(0), None);
    assert_eq!(stream.read_u16(), Some(5));
}

#[test]
fn cut_counted_offsets_are_not_read() {
    let data = [0x00u8, 0x02, 0x00, 0x00, 0x00, 0x0C, 0x12, 0x34, 0x56];
    let mut stream = Stream::new(&data);
    assert!(stream.read_offset32_array().is_none());
    // the count is consumed, the entries are not
    assert_eq!(stream.read_u32(), Some(12));

    let mut stream = Stream::new(&data[..1]);
    assert!(stream.read_offset32_array().is_none());
    assert_eq!(stream.read_u16(), None);
}

#[test]
fn offset_array_decodes_on_access() {
    let data = [0x00u8, 0x00, 0x00, 0x01, 0xFF, 0xFF, 0xFF, 0xFF, 0x00, 0x01, 0x00, 0x00];
    let offsets = Offset32Array::new(&data);
    assert_eq!(offsets.len(), 3);
    assert_eq!(offsets.get(0), Some(1));
    assert_eq!(offsets.get(1), Some(u32::MAX));
    assert_eq!(offsets.get(2), Some(65536));
    assert_eq!(offsets.get(3), None);
    assert_eq!(offsets.get(usize::MAX), None);
}

#[test]
fn offset_array_leaves_out_a_cut_entry() {
    let data = [0x00u8, 0x00, 0x00, 0x01, 0xFF, 0xFF, 0xFF];
    let offsets = Offset32Array::new(&data);
    assert_eq!(offsets.len(), 1);
    assert_eq!(offsets.get(0), Some(1));
    assert_eq!(offsets.get(1), None);
    let none = Offset32Array::new(&data[..3]);
    assert_eq!(none.len(), 0);
    assert_eq!(none.get(0), None);
}
