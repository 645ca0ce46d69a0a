//! TIFF header structures and parsing.
//!
//! The first 8 bytes of every TIFF file fix the byte order, carry the magic
//! constant 42, and give the offset of the first Image File Directory. This
//! module models those bytes as integers and verifies the parser against
//! that model.

use crate::error::{ErrorModel, TiffError};
use vstd::prelude::*;
use vstd::string::StringExecFns;

verus! {

/// Byte order (endianness) of the TIFF file
#[derive(Debug, Clone, Copy, PartialEq, Eq, Structural)]
pub enum Endian {
    /// Little-endian byte order (Intel format) - "II"
    Little,
    /// Big-endian byte order (Motorola format) - "MM"
    Big,
}

/// The integer encoded by two bytes under the given byte order.
pub open spec fn u16_val(e: Endian, b0: u8, b1: u8) -> int {
    match e {
        Endian::Little => b0 + 0x100 * b1,
        Endian::Big => 0x100 * b0 + b1,
    }
}

/// The integer encoded by four bytes under the given byte order.
pub open spec fn u32_val(e: Endian, b0: u8, b1: u8, b2: u8, b3: u8) -> int {
    match e {
        Endian::Little => b0 + 0x100 * b1 + 0x1_0000 * b2 + 0x100_0000 * b3,
        Endian::Big => 0x100_0000 * b0 + 0x1_0000 * b1 + 0x100 * b2 + b3,
    }
}

/// The integer encoded by eight bytes under the given byte order.
pub open spec fn u64_val(
    e: Endian,
    b0: u8,
    b1: u8,
    b2: u8,
    b3: u8,
    b4: u8,
    b5: u8,
    b6: u8,
    b7: u8,
) -> int {
    match e {
        Endian::Little => u32_val(Endian::Little, b0, b1, b2, b3) + 0x1_0000_0000 * u32_val(
            Endian::Little,
            b4,
            b5,
            b6,
            b7,
        ),
        Endian::Big => 0x1_0000_0000 * u32_val(Endian::Big, b0, b1, b2, b3) + u32_val(
            Endian::Big,
            b4,
            b5,
            b6,
            b7,
        ),
    }
}

/// The two-byte integer starting at `off` in `d` under byte order `e`.
pub open spec fn u16_at(d: Seq<u8>, off: int, e: Endian) -> int {
    u16_val(e, d[off], d[off + 1])
}

/// The four-byte integer starting at `off` in `d` under byte order `e`.
pub open spec fn u32_at(d: Seq<u8>, off: int, e: Endian) -> int {
    u32_val(e, d[off], d[off + 1], d[off + 2], d[off + 3])
}

/// The eight-byte integer starting at `off` in `d` under byte order `e`.
pub open spec fn u64_at(d: Seq<u8>, off: int, e: Endian) -> int {
    u64_val(
        e,
        d[off],
        d[off + 1],
        d[off + 2],
        d[off + 3],
        d[off + 4],
        d[off + 5],
        d[off + 6],
        d[off + 7],
    )
}

/// The two wire bytes of a 16-bit value under the given byte order.
pub open spec fn spec_u16_bytes(e: Endian, v: u16) -> Seq<u8> {
    match e {
        Endian::Little => seq![(v % 0x100) as u8, (v / 0x100) as u8],
        Endian::Big => seq![(v / 0x100) as u8, (v % 0x100) as u8],
    }
}

/// The four wire bytes of a 32-bit value under the given byte order.
pub open spec fn spec_u32_bytes(e: Endian, v: u32) -> Seq<u8> {
    match e {
        Endian::Little => seq![
            (v % 0x100) as u8,
            ((v / 0x100) % 0x100) as u8,
            ((v / 0x1_0000) % 0x100) as u8,
            ((v / 0x100_0000) % 0x100) as u8,
        ],
        Endian::Big => seq![
            ((v / 0x100_0000) % 0x100) as u8,
            ((v / 0x1_0000) % 0x100) as u8,
            ((v / 0x100) % 0x100) as u8,
            (v % 0x100) as u8,
        ],
    }
}

/// Serializing a 16-bit value and reading it back under the same byte order
/// returns the value.
pub proof fn lemma_u16_bytes_value(e: Endian, v: u16)
    ensures
        u16_val(e, spec_u16_bytes(e, v)[0], spec_u16_bytes(e, v)[1]) == v,
{
    vstd::arithmetic::div_mod::lemma_fundamental_div_mod(v as int, 0x100);
    assert(v as int / 0x100 < 0x100) by {
        vstd::arithmetic::div_mod::lemma_div_is_ordered(v as int, 0xffff, 0x100);
    }
}

/// Serializing a 32-bit value and reading it back under the same byte order
/// returns the value.
pub proof fn lemma_u32_bytes_value(e: Endian, v: u32)
    ensures
        ({
            let b = spec_u32_bytes(e, v);
            u32_val(e, b[0], b[1], b[2], b[3]) == v
        }),
{
    let x = v as int;
    vstd::arithmetic::div_mod::lemma_fundamental_div_mod(x, 0x100);
    vstd::arithmetic::div_mod::lemma_fundamental_div_mod(x / 0x100, 0x100);
    vstd::arithmetic::div_mod::lemma_fundamental_div_mod(x / 0x1_0000, 0x100);
    vstd::arithmetic::div_mod::lemma_div_denominator(x, 0x100, 0x100);
    vstd::arithmetic::div_mod::lemma_div_denominator(x, 0x1_0000, 0x100);
    assert(x / 0x100 / 0x100 == x / 0x1_0000);
    assert(x / 0x1_0000 / 0x100 == x / 0x100_0000);
    assert(x / 0x100_0000 < 0x100) by {
        vstd::arithmetic::div_mod::lemma_div_is_ordered(x, 0xffff_ffff, 0x100_0000);
    }
    vstd::arithmetic::div_mod::lemma_small_mod((x / 0x100_0000) as nat, 0x100);
}

/// The two-byte ASCII order marker that names a byte order on the wire.
pub open spec fn spec_order_marker(e: Endian) -> Seq<u8> {
    match e {
        Endian::Little => seq![0x49u8, 0x49u8],
        Endian::Big => seq![0x4du8, 0x4du8],
    }
}

/// The eight header bytes that encode a byte order and a first-directory
/// offset: the order marker, the magic constant 42, and the offset, the
/// latter two serialized under that byte order.
pub open spec fn spec_header_bytes(e: Endian, offset: u32) -> Seq<u8> {
    spec_order_marker(e) + spec_u16_bytes(e, 42) + spec_u32_bytes(e, offset)
}

impl Endian {
    /// Parse endianness from the first 2 bytes of TIFF data
    fn from_bytes(bytes: &[u8]) -> (r: Result<Self, TiffError>)
        ensures
            match r {
                Ok(e) => {
                    &&& bytes@.len() >= 2
                    &&& (e == Endian::Little <==> bytes@[0] == 0x49 && bytes@[1] == 0x49)
                    &&& (e == Endian::Big <==> bytes@[0] == 0x4d && bytes@[1] == 0x4d)
                },
                Err(er) => {
                    &&& !(bytes@.len() >= 2 && (bytes@[0] == 0x49 && bytes@[1] == 0x49 || bytes@[0]
                        == 0x4d && bytes@[1] == 0x4d))
                    &&& er@ == if bytes@.len() < 2 {
                        ErrorModel::InsufficientData {
                            operation: "reading byte order"@,
                            needed: 2,
                            available: bytes@.len() as int,
                        }
                    } else {
                        ErrorModel::InvalidByteOrder { found: seq![bytes@[0], bytes@[1]] }
                    }
                },
            },
    {
        if bytes.len() < 2 {
            return Err(TiffError::InsufficientData {
                operation: String::from_str("reading byte order"),
                needed: 2,
                available: bytes.len(),
            });
        }
        if bytes[0] == 0x49 && bytes[1] == 0x49 {
            Ok(Endian::Little)
        } else if bytes[0] == 0x4d && bytes[1] == 0x4d {
            Ok(Endian::Big)
        } else {
            let found = [bytes[0], bytes[1]];
            assert(found@ =~= seq![bytes@[0], bytes@[1]]);
            Err(TiffError::InvalidByteOrder { found })
        }
    }

    /// Convert a 2-byte array to u16 using this endianness
    pub fn read_u16(self, bytes: [u8; 2]) -> (r: u16)
        ensures
            r == u16_val(self, bytes[0], bytes[1]),
    {
        match self {
            Endian::Little => bytes[0] as u16 + 0x100 * (bytes[1] as u16),
            Endian::Big => 0x100 * (bytes[0] as u16) + bytes[1] as u16,
        }
    }

    /// Convert a 4-byte array to u32 using this endianness
    pub fn read_u32(self, bytes: [u8; 4]) -> (r: u32)
        ensures
            r == u32_val(self, bytes[0], bytes[1], bytes[2], bytes[3]),
    {
        match self {
            Endian::Little => bytes[0] as u32 + 0x100 * (bytes[1] as u32) + 0x1_0000 * (bytes[2]
                as u32) + 0x100_0000 * (bytes[3] as u32),
            Endian::Big => 0x100_0000 * (bytes[0] as u32) + 0x1_0000 * (bytes[1] as u32) + 0x100 * (
            bytes[2] as u32) + bytes[3] as u32,
        }
    }

    /// Convert an 8-byte array to u64 using this endianness
    pub fn read_u64(self, bytes: [u8; 8]) -> (r: u64)
        ensures
            r == u64_val(
                self,
                bytes[0],
                bytes[1],
                bytes[2],
                bytes[3],
                bytes[4],
                bytes[5],
                bytes[6],
                bytes[7],
            ),
    {
        let lo_bytes = [bytes[0], bytes[1], bytes[2], bytes[3]];
        let hi_bytes = [bytes[4], bytes[5], bytes[6], bytes[7]];
        match self {
            Endian::Little => {
                let lo = Endian::Little.read_u32(lo_bytes);
                let hi = Endian::Little.read_u32(hi_bytes);
                lo as u64 + 0x1_0000_0000 * (hi as u64)
            },
            Endian::Big => {
                let hi = Endian::Big.read_u32(lo_bytes);
                let lo = Endian::Big.read_u32(hi_bytes);
                0x1_0000_0000 * (hi as u64) + lo as u64
            },
        }
    }
}

/// TIFF file header (first 8 bytes of every TIFF file)
#[derive(Debug, Clone)]
pub struct TiffHeader {
    /// Byte order indicator
    pub endian: Endian,
    /// Magic number (should always be 42)
    pub magic: u16,
    /// Offset to the first Image File Directory
    pub ifd_offset: u32,
}

/// The byte order declared by the first two bytes of `d`, if they are one of
/// the two recognized ASCII pairs ("II" or "MM").
pub open spec fn spec_byte_order(d: Seq<u8>) -> Option<Endian> {
    if d.len() >= 2 && d[0] == 0x49 && d[1] == 0x49 {
        Some(Endian::Little)
    } else if d.len() >= 2 && d[0] == 0x4d && d[1] == 0x4d {
        Some(Endian::Big)
    } else {
        None
    }
}

/// What parsing the first 8 bytes of `d` as a TIFF header yields: the header
/// on success, and the precise error otherwise.
pub open spec fn spec_parse_header(d: Seq<u8>) -> Result<TiffHeader, ErrorModel> {
    if d.len() < 8 {
        Err(
            ErrorModel::InsufficientData {
                operation: "reading TIFF header"@,
                needed: 8,
                available: d.len() as int,
            },
        )
    } else {
        match spec_byte_order(d) {
            None => Err(ErrorModel::InvalidByteOrder { found: seq![d[0], d[1]] }),
            Some(e) => {
                if u16_at(d, 2, e) != 42 {
                    Err(ErrorModel::InvalidMagic { found: u16_at(d, 2, e) })
                } else {
                    Ok(
                        TiffHeader {
                            endian: e,
                            magic: 42,
                            ifd_offset: u32_at(d, 4, e) as u32,
                        },
                    )
                }
            },
        }
    }
}

impl TiffHeader {
    /// The size of a TIFF header in bytes
    pub const SIZE: usize = 8;

    /// The expected magic number in TIFF files
    pub const MAGIC_NUMBER: u16 = 42;

    /// Parse a TIFF header from the first 8 bytes of data
    ///
    /// # Arguments
    /// * `data` - Byte slice containing at least 8 bytes
    ///
    /// # Returns
    /// * `Ok(TiffHeader)` if parsing succeeds
    /// * `Err(TiffError)` if data is invalid or insufficient
    pub fn parse(data: &[u8]) -> (r: Result<Self, TiffError>)
        ensures
            match r {
                Ok(h) => spec_parse_header(data@) == Ok::<TiffHeader, ErrorModel>(h),
                Err(er) => spec_parse_header(data@) == Err::<TiffHeader, ErrorModel>(er@),
            },
    {
        if data.len() < 8 {
            return Err(TiffError::InsufficientData {
                operation: String::from_str("reading TIFF header"),
                needed: 8,
                available: data.len(),
            });
        }
        let endian = match Endian::from_bytes(data) {
            Ok(e) => e,
            Err(er) => {
                return Err(er);
            },
        };
        let magic_bytes = [data[2], data[3]];
        let magic = endian.read_u16(magic_bytes);
        if magic != 42 {
            return Err(TiffError::InvalidMagic { found: magic });
        }
        let ifd_offset_bytes = [data[4], data[5], data[6], data[7]];
        let ifd_offset = endian.read_u32(ifd_offset_bytes);
        Ok(TiffHeader { endian, magic, ifd_offset })
    }

    /// Get the endianness of this TIFF file
    pub fn endianness(&self) -> (e: Endian)
        ensures
            e == self.endian,
    {
        self.endian
    }

    /// Check if this TIFF file uses little-endian byte order
    pub fn is_little_endian(&self) -> (r: bool)
        ensures
            r == (self.endian == Endian::Little),
    {
        self.endian == Endian::Little
    }

    /// Check if this TIFF file uses big-endian byte order
    pub fn is_big_endian(&self) -> (r: bool)
        ensures
            r == (self.endian == Endian::Big),
    {
        self.endian == Endian::Big
    }
}

/// Header construction and parsing round-trip: the eight bytes built from
/// any byte order and first-directory offset parse back to exactly that
/// order, the magic constant 42, and that offset.
pub proof fn lemma_header_round_trip(e: Endian, offset: u32)
    ensures
        spec_parse_header(spec_header_bytes(e, offset)) == Ok::<TiffHeader, ErrorModel>(
            TiffHeader { endian: e, magic: 42, ifd_offset: offset },
        ),
{
    let d = spec_header_bytes(e, offset);
    let magic = spec_u16_bytes(e, 42);
    let off_bytes = spec_u32_bytes(e, offset);
    assert(d.len() == 8);
    assert(d[0] == spec_order_marker(e)[0] && d[1] == spec_order_marker(e)[1]);
    assert(spec_byte_order(d) == Some(e));
    assert(d[2] == magic[0] && d[3] == magic[1]);
    lemma_u16_bytes_value(e, 42);
    assert(u16_at(d, 2, e) == 42);
    assert(d[4] == off_bytes[0] && d[5] == off_bytes[1] && d[6] == off_bytes[2] && d[7]
        == off_bytes[3]);
    lemma_u32_bytes_value(e, offset);
    assert(u32_at(d, 4, e) == offset);
}

/// Any first two bytes other than the two recognized ASCII marker pairs
/// make parsing fail with the invalid-byte-order error carrying exactly
/// those two bytes.
pub proof fn lemma_parse_rejects_unknown_order(d: Seq<u8>)
    requires
        d.len() >= 8,
        spec_byte_order(d) is None,
    ensures
        spec_parse_header(d) == Err::<TiffHeader, ErrorModel>(
            ErrorModel::InvalidByteOrder { found: seq![d[0], d[1]] },
        ),
{
}

/// Under a valid order marker, any magic value other than 42 makes parsing
/// fail with the invalid-magic error carrying the decoded, order-correct
/// value.
pub proof fn lemma_parse_rejects_bad_magic(d: Seq<u8>, e: Endian)
    requires
        d.len() >= 8,
        spec_byte_order(d) == Some(e),
        u16_at(d, 2, e) != 42,
    ensures
        spec_parse_header(d) == Err::<TiffHeader, ErrorModel>(
            ErrorModel::InvalidMagic { found: u16_at(d, 2, e) },
        ),
{
}

/// Fewer than eight bytes of input make parsing fail with the
/// insufficient-data error naming the eight bytes needed and the count
/// available.
pub proof fn lemma_parse_needs_eight_bytes(d: Seq<u8>)
    requires
        d.len() < 8,
    ensures
        spec_parse_header(d) == Err::<TiffHeader, ErrorModel>(
            ErrorModel::InsufficientData {
                operation: "reading TIFF header"@,
                needed: 8,
                available: d.len() as int,
            },
        ),
{
}


} // verus!\n