//! Fixed-layout structural records: the magic header, the per-string entry
//! descriptor, and the language trailer. All integers are little-endian and
//! every read is an explicit, bounds-checked field decode.

use vstd::prelude::*;

use crate::Error;

verus! {

/// On-disk size of a `Header` in bytes.
pub const HEADER_SIZE: usize = 4;

/// On-disk size of an `Entry` descriptor in bytes.
pub const ENTRY_SIZE: usize = 5;

/// On-disk size of a `Trailer` in bytes.
pub const TRAILER_SIZE: usize = 2;

/// The fixed sentinel value that opens every buffer of this format.
pub const MAGIC: u32 = 0x73727473;

/// The little-endian `u16` held at bytes `i` and `i + 1`.
pub open spec fn spec_u16_le(b: Seq<u8>, i: int) -> u16 {
    (b[i] + b[i + 1] * 0x100) as u16
}

/// The little-endian `u32` held at bytes `i` through `i + 3`.
pub open spec fn spec_u32_le(b: Seq<u8>, i: int) -> u32 {
    (b[i] + b[i + 1] * 0x100 + b[i + 2] * 0x10000 + b[i + 3] * 0x1000000) as u32
}

/// Reads the little-endian `u16` at byte position `i`.
pub fn u16_le(b: &[u8], i: usize) -> (v: u16)
    requires
        i + 2 <= b@.len(),
    ensures
        v == spec_u16_le(b@, i as int),
{
    b[i] as u16 + b[i + 1] as u16 * 0x100
}

/// Reads the little-endian `u32` at byte position `i`.
pub fn u32_le(b: &[u8], i: usize) -> (v: u32)
    requires
        i + 4 <= b@.len(),
    ensures
        v == spec_u32_le(b@, i as int),
{
    b[i] as u32 + b[i + 1] as u32 * 0x100 + b[i + 2] as u32 * 0x10000 + b[i + 3] as u32
        * 0x1000000
}

/// The fixed file header: nothing but the magic constant.
#[derive(Debug)]
pub struct Header {
    pub magic: u32,
}

/// What `Header::from_bytes` returns on a given buffer.
pub open spec fn spec_parse_header(b: Seq<u8>) -> Result<Header, Error> {
    if b.len() < HEADER_SIZE {
        Err(Error::HeaderTooShort)
    } else if spec_u32_le(b, 0) != MAGIC {
        Err(Error::InvalidFile)
    } else {
        Ok(Header { magic: spec_u32_le(b, 0) })
    }
}

impl Header {
    /// Parses a header from the front of `buf`: too short a buffer fails with
    /// `HeaderTooShort`, a wrong magic with `InvalidFile`.
    pub fn from_bytes(buf: &[u8]) -> (r: Result<Self, Error>)
        ensures
            r == spec_parse_header(buf@),
    {
        if buf.len() < HEADER_SIZE {
            return Err(Error::HeaderTooShort);
        }
        let magic = u32_le(buf, 0);
        if magic != MAGIC {
            Err(Error::InvalidFile)
        } else {
            Ok(Header { magic })
        }
    }
}

/// The fixed file trailer: a language byte and an index byte. The index is
/// present in the format but carries no meaning known to this decoder.
#[derive(Debug)]
pub struct Trailer {
    pub language: u8,
    pub index: u8,
}

/// What `Trailer::from_bytes` returns on a given buffer.
pub open spec fn spec_parse_trailer(b: Seq<u8>) -> Result<Trailer, Error> {
    if b.len() < TRAILER_SIZE {
        Err(Error::HeaderTooShort)
    } else {
        Ok(Trailer { language: b[0], index: b[1] })
    }
}

impl Trailer {
    /// Parses a trailer from the front of `buf`; fails with `HeaderTooShort`
    /// when fewer than two bytes remain.
    pub fn from_bytes(buf: &[u8]) -> (r: Result<Self, Error>)
        ensures
            r == spec_parse_trailer(buf@),
    {
        if buf.len() < TRAILER_SIZE {
            return Err(Error::HeaderTooShort);
        }
        Ok(Trailer { language: buf[0], index: buf[1] })
    }
}

/// The per-string descriptor: the record's total length (descriptor
/// included), the codepoint-shift base, and the width of each packed
/// character code.
#[derive(Debug)]
pub struct Entry {
    pub size: u16,
    pub offset: u16,
    pub bits_per_unit: u8,
}

impl Entry {
    /// A descriptor the rest of the decoder can rely on: a nonzero code width
    /// and room for at least the descriptor itself.
    pub open spec fn wf(self) -> bool {
        self.bits_per_unit != 0 && self.size >= ENTRY_SIZE
    }
}

/// What `Entry::from_bytes` returns on a given buffer.
pub open spec fn spec_parse_entry(b: Seq<u8>) -> Result<Entry, Error> {
    if b.len() < ENTRY_SIZE {
        Err(Error::HeaderTooShort)
    } else if b[4] == 0 {
        Err(Error::Unexpected)
    } else if spec_u16_le(b, 0) < ENTRY_SIZE {
        Err(Error::InvalidFile)
    } else {
        Ok(Entry { size: spec_u16_le(b, 0), offset: spec_u16_le(b, 2), bits_per_unit: b[4] })
    }
}

impl Entry {
    /// Parses an entry descriptor from the front of `buf`: too short a buffer
    /// fails with `HeaderTooShort`, a zero code width with `Unexpected`, and
    /// a size smaller than the descriptor itself with `InvalidFile`.
    pub fn from_bytes(buf: &[u8]) -> (r: Result<Self, Error>)
        ensures
            r == spec_parse_entry(buf@),
            r matches Ok(e) ==> e.wf(),
    {
        if buf.len() < ENTRY_SIZE {
            return Err(Error::HeaderTooShort);
        }
        let size = u16_le(buf, 0);
        let offset = u16_le(buf, 2);
        let bits_per_unit = buf[4];
        if bits_per_unit == 0 {
            return Err(Error::Unexpected);
        }
        if (size as usize) < ENTRY_SIZE {
            return Err(Error::InvalidFile);
        }
        Ok(Entry { size, offset, bits_per_unit })
    }
}

} // verus!
