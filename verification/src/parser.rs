//! Bounds-checked, big-endian reads over byte slices.
//!
//! Every number in an OpenType table is stored most significant byte first.
//! The spec functions of this module say which number a run of bytes holds;
//! the executable functions read it and never index out of bounds.

use vstd::prelude::*;
use vstd::slice::slice_subrange;

verus! {

/// The unsigned 16-bit big-endian number held by the two bytes of `bytes`
/// that start at `at`.
pub open spec fn be_u16(bytes: Seq<u8>, at: int) -> u16 {
    (bytes[at] as int * 0x100 + bytes[at + 1] as int) as u16
}

/// The unsigned 32-bit big-endian number held by the four bytes of `bytes`
/// that start at `at`.
pub open spec fn be_u32(bytes: Seq<u8>, at: int) -> u32 {
    (bytes[at] as int * 0x100_0000 + bytes[at + 1] as int * 0x1_0000 + bytes[at + 2] as int * 0x100
        + bytes[at + 3] as int) as u32
}

/// An offset field as a handle: zero stands for "no subtable".
pub open spec fn optional_offset(raw: u16) -> Option<u16> {
    if raw == 0 {
        None
    } else {
        Some(raw)
    }
}

/// The bytes of `data` from `start` to its end. `start` may be the length
/// of `data` (the result is then empty) but not more.
pub open spec fn tail_from(data: Seq<u8>, start: int) -> Option<Seq<u8>> {
    if 0 <= start <= data.len() {
        Some(data.skip(start))
    } else {
        None
    }
}

/// The 32-bit big-endian numbers that `bytes` holds back to back; bytes left
/// over after the last whole number are not part of any.
pub open spec fn be_u32_array(bytes: Seq<u8>) -> Seq<u32> {
    Seq::new((bytes.len() / 4) as nat, |i: int| be_u32(bytes, 4 * i))
}

/// The 16-bit number at byte offset `at` of a slice that holds both of its
/// bytes.
pub(crate) fn u16_at(data: &[u8], at: usize) -> (value: u16)
    requires
        at + 2 <= data@.len(),
    ensures
        value == be_u16(data@, at as int),
{
    let hi: u16 = data[at] as u16;
    let lo: u16 = data[at + 1] as u16;
    hi * 0x100 + lo
}

/// The 32-bit number at byte offset `at` of a slice that holds all four of
/// its bytes.
pub(crate) fn u32_at(data: &[u8], at: usize) -> (value: u32)
    requires
        at + 4 <= data@.len(),
    ensures
        value == be_u32(data@, at as int),
{
    let b0: u32 = data[at] as u32;
    let b1: u32 = data[at + 1] as u32;
    let b2: u32 = data[at + 2] as u32;
    let b3: u32 = data[at + 3] as u32;
    b0 * 0x100_0000 + b1 * 0x1_0000 + b2 * 0x100 + b3
}

/// Reads the 16-bit number at byte offset `at`, if the slice holds both of
/// its bytes.
pub fn read_u16_at(data: &[u8], at: usize) -> (value: Option<u16>)
    ensures
        value is Some <==> at + 2 <= data@.len(),
        value matches Some(v) ==> v == be_u16(data@, at as int),
{
    let len: usize = data.len();
    if len < 2 || at > len - 2 {
        None
    } else {
        Some(u16_at(data, at))
    }
}

/// Reads the 32-bit number at byte offset `at`, if the slice holds all four
/// of its bytes.
pub fn read_u32_at(data: &[u8], at: usize) -> (value: Option<u32>)
    ensures
        value is Some <==> at + 4 <= data@.len(),
        value matches Some(v) ==> v == be_u32(data@, at as int),
{
    let len: usize = data.len();
    if len < 4 || at > len - 4 {
        None
    } else {
        Some(u32_at(data, at))
    }
}

/// The part of `data` that starts at `start`, or `None` where `start` lies
/// past the end.
pub fn tail<'a>(data: &'a [u8], start: usize) -> (rest: Option<&'a [u8]>)
    ensures
        match rest {
            Some(bytes) => tail_from(data@, start as int) == Some(bytes@),
            None => tail_from(data@, start as int) is None,
        },
{
    if start <= data.len() {
        Some(slice_subrange(data, start, data.len()))
    } else {
        None
    }
}

/// A counted array of 32-bit offsets that decodes an entry when asked for it.
#[derive(Clone, Copy)]
pub struct Offset32Array<'a> {
    data: &'a [u8],
}

impl<'a> View for Offset32Array<'a> {
    type V = Seq<u32>;

    closed spec fn view(&self) -> Seq<u32> {
        be_u32_array(self.data@)
    }
}

impl<'a> Offset32Array<'a> {
    /// An array over the bytes of its entries.
    pub fn new(data: &'a [u8]) -> (array: Self)
        ensures
            array@ == be_u32_array(data@),
    {
        Offset32Array { data }
    }

    /// The number of entries.
    pub fn len(&self) -> (count: usize)
        ensures
            count == self@.len(),
    {
        self.data.len() / 4
    }

    /// The entry at `index`, or `None` where the array is not that long.
    pub fn get(&self, index: usize) -> (entry: Option<u32>)
        ensures
            entry == (if index < self@.len() {
                Some(self@[index as int])
            } else {
                None
            }),
    {
        if index < self.data.len() / 4 {
            read_u32_at(self.data, index * 4)
        } else {
            None
        }
    }
}

/// A cursor over a byte slice. A read either takes a whole field and moves
/// past it, or fails and leaves the cursor where it was.
pub struct Stream<'a> {
    data: &'a [u8],
    offset: usize,
}

impl<'a> Stream<'a> {
    /// The bytes the cursor runs over.
    pub closed spec fn bytes(&self) -> Seq<u8> {
        self.data@
    }

    /// The offset of the next byte to read. It may lie past the end after a
    /// `skip`.
    pub closed spec fn position(&self) -> nat {
        self.offset as nat
    }

    /// A cursor at the start of `data`.
    pub fn new(data: &'a [u8]) -> (stream: Self)
        ensures
            stream.bytes() == data@,
            stream.position() == 0,
    {
        Stream { data, offset: 0 }
    }

    /// Moves the cursor `len` bytes on without looking at them.
    pub fn skip(&mut self, len: usize)
        requires
            old(self).position() + len <= usize::MAX,
        ensures
            final(self).bytes() == old(self).bytes(),
            final(self).position() == old(self).position() + len,
    {
        self.offset = self.offset + len;
    }

    /// Reads a 16-bit number.
    pub fn read_u16(&mut self) -> (value: Option<u16>)
        ensures
            final(self).bytes() == old(self).bytes(),
            match value {
                Some(v) => {
                    &&& old(self).position() + 2 <= old(self).bytes().len()
                    &&& v == be_u16(old(self).bytes(), old(self).position() as int)
                    &&& final(self).position() == old(self).position() + 2
                },
                None => {
                    &&& old(self).position() + 2 > old(self).bytes().len()
                    &&& final(self).position() == old(self).position()
                },
            },
    {
        let value = read_u16_at(self.data, self.offset);
        if value.is_some() {
            assert(self.offset + 2 <= self.data.len());
            self.offset = self.offset + 2;
        }
        value
    }

    /// Reads a 32-bit number.
    pub fn read_u32(&mut self) -> (value: Option<u32>)
        ensures
            final(self).bytes() == old(self).bytes(),
            match value {
                Some(v) => {
                    &&& old(self).position() + 4 <= old(self).bytes().len()
                    &&& v == be_u32(old(self).bytes(), old(self).position() as int)
                    &&& final(self).position() == old(self).position() + 4
                },
                None => {
                    &&& old(self).position() + 4 > old(self).bytes().len()
                    &&& final(self).position() == old(self).position()
                },
            },
    {
        let value = read_u32_at(self.data, self.offset);
        if value.is_some() {
            assert(self.offset + 4 <= self.data.len());
            self.offset = self.offset + 4;
        }
        value
    }

    /// Reads a 16-bit offset field. The outer `Option` tells whether the
    /// field could be read, the inner one whether it points anywhere.
    pub fn read_offset16(&mut self) -> (field: Option<Option<u16>>)
        ensures
            final(self).bytes() == old(self).bytes(),
            match field {
                Some(offset) => {
                    &&& old(self).position() + 2 <= old(self).bytes().len()
                    &&& offset == optional_offset(
                        be_u16(old(self).bytes(), old(self).position() as int),
                    )
                    &&& final(self).position() == old(self).position() + 2
                },
                None => {
                    &&& old(self).position() + 2 > old(self).bytes().len()
                    &&& final(self).position() == old(self).position()
                },
            },
    {
        match self.read_u16() {
            Some(raw) => if raw != 0 {
                Some(Some(raw))
            } else {
                Some(None)
            },
            None => None,
        }
    }

    /// Reads a 16-bit count and then that many 32-bit offsets. Where the
    /// count cannot be read the cursor stays; where the entries do not all
    /// fit it stays behind the count.
    pub fn read_offset32_array(&mut self) -> (array: Option<Offset32Array<'a>>)
        ensures
            final(self).bytes() == old(self).bytes(),
            match array {
                Some(entries) => {
                    let bytes = old(self).bytes();
                    let at = old(self).position() as int;
                    let count = be_u16(bytes, at) as int;
                    &&& at + 2 + 4 * count <= bytes.len()
                    &&& entries@ == be_u32_array(bytes.subrange(at + 2, at + 2 + 4 * count))
                    &&& final(self).position() == at + 2 + 4 * count
                },
                None => {
                    let bytes = old(self).bytes();
                    let at = old(self).position() as int;
                    if at + 2 <= bytes.len() {
                        &&& at + 2 + 4 * (be_u16(bytes, at) as int) > bytes.len()
                        &&& final(self).position() == at + 2
                    } else {
                        final(self).position() == at
                    }
                },
            },
    {
        let count: usize = match self.read_u16() {
            Some(count) => count as usize,
            None => { return None; },
        };
        let len: usize = count * 4;
        if self.data.len() - self.offset < len {
            return None;
        }
        let entries = slice_subrange(self.data, self.offset, self.offset + len);
        self.offset = self.offset + len;
        Some(Offset32Array::new(entries))
    }
}

} // verus!
