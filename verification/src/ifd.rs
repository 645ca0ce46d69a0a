//! Image File Directory structures and parsing
//!
//! IFDs contain all the metadata about a TIFF image - dimensions, compression,
//! where the actual image data is stored, etc. Each IFD contains a series of
//! 12-byte entries that describe different aspects of the image.
//!
//! The central subtlety of the format lives here: the 4-byte value slot of an
//! entry holds the payload itself when the payload is at most 4 bytes, and a
//! byte offset into the file otherwise. That rule is captured once, in
//! [`spec_tag_value`], and every decoder is verified against it.

use crate::error::{result_matches, ErrorModel, TiffError};
use crate::header::{u16_at, u32_at, u64_at, Endian};
use crate::reader::{sat_index, whole_elems, TiffDataSource, TiffReader};
use crate::text::{string_from_utf8, utf8_decode};
use vstd::prelude::*;
use crate::decimal::spec_dec;
use vstd::string::StringExecFns;

verus! {

/// An Image File Directory entry (12 bytes)
///
/// Each entry describes one piece of metadata about the image.
/// The structure is always the same, but the interpretation depends
/// on the tag and field type.
#[derive(Debug, Clone, Copy, PartialEq, Eq, Structural)]
pub struct IfdEntry {
    /// The tag identifier (what kind of data this is)
    /// Examples: 256 = ImageWidth, 257 = ImageLength, 259 = Compression
    pub tag: u16,
    /// The data type (byte, short, long, rational, etc.)
    /// This determines how to interpret the value_offset field
    pub field_type: u16,
    /// Number of values of this type
    /// Examples: 1 for a single width value, 3 for RGB bits per sample
    pub count: u32,
    /// Either the value itself (if total payload is at most 4 bytes) or the
    /// offset to the value. Which of the two it is must always be re-derived
    /// from `field_type` and `count`, never cached.
    pub value_offset: u32,
}

/// Data types used in TIFF tags
///
/// These correspond to the field_type values in IFD entries.
/// Each type has a specific byte size and interpretation.
#[derive(Debug, Clone, Copy, PartialEq, Eq, Structural)]
pub enum FieldType {
    /// 8-bit unsigned integer
    Byte,
    /// ASCII string (null-terminated)
    Ascii,
    /// 16-bit unsigned integer
    Short,
    /// 32-bit unsigned integer
    Long,
    /// Rational (two longs: numerator, denominator)
    Rational,
    /// 8-bit signed integer
    SByte,
    /// Undefined (8-bit byte that can contain anything)
    Undefined,
    /// 16-bit signed integer
    SShort,
    /// 32-bit signed integer
    SLong,
    /// Signed rational (two slongs)
    SRational,
    /// 32-bit IEEE floating point
    Float,
    /// 64-bit IEEE floating point
    Double,
}

/// The field type named by a type code on the wire, if the code is known.
pub open spec fn spec_field_type(value: u16) -> Option<FieldType> {
    if value == 1 {
        Some(FieldType::Byte)
    } else if value == 2 {
        Some(FieldType::Ascii)
    } else if value == 3 {
        Some(FieldType::Short)
    } else if value == 4 {
        Some(FieldType::Long)
    } else if value == 5 {
        Some(FieldType::Rational)
    } else if value == 6 {
        Some(FieldType::SByte)
    } else if value == 7 {
        Some(FieldType::Undefined)
    } else if value == 8 {
        Some(FieldType::SShort)
    } else if value == 9 {
        Some(FieldType::SLong)
    } else if value == 10 {
        Some(FieldType::SRational)
    } else if value == 11 {
        Some(FieldType::Float)
    } else if value == 12 {
        Some(FieldType::Double)
    } else {
        None
    }
}

/// The wire size in bytes of one element of the given field type.
pub open spec fn spec_byte_size(ft: FieldType) -> int {
    match ft {
        FieldType::Byte => 1,
        FieldType::Ascii => 1,
        FieldType::Short => 2,
        FieldType::Long => 4,
        FieldType::Rational => 8,
        FieldType::SByte => 1,
        FieldType::Undefined => 1,
        FieldType::SShort => 2,
        FieldType::SLong => 4,
        FieldType::SRational => 8,
        FieldType::Float => 4,
        FieldType::Double => 8,
    }
}

impl FieldType {
    /// Convert from u16 to FieldType
    pub fn from_u16(value: u16) -> (r: Result<Self, TiffError>)
        ensures
            match r {
                Ok(ft) => spec_field_type(value) == Some(ft),
                Err(er) => spec_field_type(value) == None::<FieldType> && er@
                    == (ErrorModel::InvalidFieldType { found: value }),
            },
    {
        match value {
            1 => Ok(FieldType::Byte),
            2 => Ok(FieldType::Ascii),
            3 => Ok(FieldType::Short),
            4 => Ok(FieldType::Long),
            5 => Ok(FieldType::Rational),
            6 => Ok(FieldType::SByte),
            7 => Ok(FieldType::Undefined),
            8 => Ok(FieldType::SShort),
            9 => Ok(FieldType::SLong),
            10 => Ok(FieldType::SRational),
            11 => Ok(FieldType::Float),
            12 => Ok(FieldType::Double),
            _ => Err(TiffError::InvalidFieldType { found: value }),
        }
    }

    /// Get the size in bytes of this data type
    pub fn byte_size(self) -> (r: usize)
        ensures
            r == spec_byte_size(self),
    {
        match self {
            FieldType::Byte | FieldType::SByte | FieldType::Ascii | FieldType::Undefined => 1,
            FieldType::Short | FieldType::SShort => 2,
            FieldType::Long | FieldType::SLong | FieldType::Float => 4,
            FieldType::Rational | FieldType::SRational | FieldType::Double => 8,
        }
    }
}

/// The value stored in a TIFF tag
///
/// Different tags store different types of data. This enum represents
/// all the possible value types that can be stored in TIFF tags.
///
/// Floating-point tags are kept as their IEEE 754 bit patterns (the
/// order-correct unsigned integer of matching width read from the wire);
/// interpreting those bits as floating-point numbers is left to callers.
#[derive(Debug, Clone)]
pub enum TagValue {
    /// Unsigned 8-bit integers
    Bytes(Vec<u8>),
    /// ASCII string (without null terminator)
    Ascii(String),
    /// Unsigned 16-bit integers
    Shorts(Vec<u16>),
    /// Unsigned 32-bit integers
    Longs(Vec<u32>),
    /// Rational numbers (numerator/denominator pairs)
    Rationals(Vec<(u32, u32)>),
    /// Signed 8-bit integers
    SBytes(Vec<i8>),
    /// Undefined bytes (raw data)
    Undefined(Vec<u8>),
    /// Signed 16-bit integers
    SShorts(Vec<i16>),
    /// Signed 32-bit integers
    SLongs(Vec<i32>),
    /// Signed rational numbers
    SRationals(Vec<(i32, i32)>),
    /// 32-bit floating point, as IEEE 754 bit patterns
    Floats(Vec<u32>),
    /// 64-bit floating point, as IEEE 754 bit patterns
    Doubles(Vec<u64>),
}

/// Mathematical model of a [`TagValue`]: the same variants over sequences.
pub enum TagValueModel {
    /// Model of [`TagValue::Bytes`]
    Bytes(Seq<u8>),
    /// Model of [`TagValue::Ascii`]
    Ascii(Seq<char>),
    /// Model of [`TagValue::Shorts`]
    Shorts(Seq<u16>),
    /// Model of [`TagValue::Longs`]
    Longs(Seq<u32>),
    /// Model of [`TagValue::Rationals`]
    Rationals(Seq<(u32, u32)>),
    /// Model of [`TagValue::SBytes`]
    SBytes(Seq<i8>),
    /// Model of [`TagValue::Undefined`]
    Undefined(Seq<u8>),
    /// Model of [`TagValue::SShorts`]
    SShorts(Seq<i16>),
    /// Model of [`TagValue::SLongs`]
    SLongs(Seq<i32>),
    /// Model of [`TagValue::SRationals`]
    SRationals(Seq<(i32, i32)>),
    /// Model of [`TagValue::Floats`]
    Floats(Seq<u32>),
    /// Model of [`TagValue::Doubles`]
    Doubles(Seq<u64>),
}

impl View for TagValue {
    type V = TagValueModel;

    open spec fn view(&self) -> TagValueModel {
        match self {
            TagValue::Bytes(v) => TagValueModel::Bytes(v@),
            TagValue::Ascii(s) => TagValueModel::Ascii(s@),
            TagValue::Shorts(v) => TagValueModel::Shorts(v@),
            TagValue::Longs(v) => TagValueModel::Longs(v@),
            TagValue::Rationals(v) => TagValueModel::Rationals(v@),
            TagValue::SBytes(v) => TagValueModel::SBytes(v@),
            TagValue::Undefined(v) => TagValueModel::Undefined(v@),
            TagValue::SShorts(v) => TagValueModel::SShorts(v@),
            TagValue::SLongs(v) => TagValueModel::SLongs(v@),
            TagValue::SRationals(v) => TagValueModel::SRationals(v@),
            TagValue::Floats(v) => TagValueModel::Floats(v@),
            TagValue::Doubles(v) => TagValueModel::Doubles(v@),
        }
    }
}

/// The first value of a tag as a `u32`, where the variant allows it.
pub open spec fn spec_as_u32(m: TagValueModel) -> Option<u32> {
    match m {
        TagValueModel::Shorts(v) => if v.len() > 0 {
            Some(v[0] as u32)
        } else {
            None
        },
        TagValueModel::Longs(v) => if v.len() > 0 {
            Some(v[0])
        } else {
            None
        },
        TagValueModel::Bytes(v) => if v.len() > 0 {
            Some(v[0] as u32)
        } else {
            None
        },
        _ => None,
    }
}

/// The first value of a tag as a `u16`, where the variant allows it.
pub open spec fn spec_as_u16(m: TagValueModel) -> Option<u16> {
    match m {
        TagValueModel::Shorts(v) => if v.len() > 0 {
            Some(v[0])
        } else {
            None
        },
        TagValueModel::Bytes(v) => if v.len() > 0 {
            Some(v[0] as u16)
        } else {
            None
        },
        _ => None,
    }
}

/// The first value of a tag as an `i32`, where the variant allows it.
pub open spec fn spec_as_i32(m: TagValueModel) -> Option<i32> {
    match m {
        TagValueModel::SLongs(v) => if v.len() > 0 {
            Some(v[0])
        } else {
            None
        },
        TagValueModel::SShorts(v) => if v.len() > 0 {
            Some(v[0] as i32)
        } else {
            None
        },
        TagValueModel::SBytes(v) => if v.len() > 0 {
            Some(v[0] as i32)
        } else {
            None
        },
        _ => None,
    }
}

/// All values of a tag widened to `u32`, where the variant allows it.
pub open spec fn spec_as_u32_seq(m: TagValueModel) -> Option<Seq<u32>> {
    match m {
        TagValueModel::Longs(v) => Some(v),
        TagValueModel::Shorts(v) => Some(Seq::new(v.len(), |i: int| v[i] as u32)),
        _ => None,
    }
}

/// The first unsigned rational of a tag, where one exists and its
/// denominator is not zero.
pub open spec fn spec_as_rational(m: TagValueModel) -> Option<(u32, u32)> {
    match m {
        TagValueModel::Rationals(v) => if v.len() > 0 && v[0].1 != 0 {
            Some(v[0])
        } else {
            None
        },
        _ => None,
    }
}

/// The first signed rational of a tag, where one exists and its
/// denominator is not zero.
pub open spec fn spec_as_srational(m: TagValueModel) -> Option<(i32, i32)> {
    match m {
        TagValueModel::SRationals(v) => if v.len() > 0 && v[0].1 != 0 {
            Some(v[0])
        } else {
            None
        },
        _ => None,
    }
}

impl TagValue {
    /// Try to get the first value as a u32 (common case for single values)
    pub fn as_u32(&self) -> (r: Option<u32>)
        ensures
            r == spec_as_u32(self@),
    {
        match self {
            TagValue::Shorts(v) => if v.len() > 0 {
                Some(v[0] as u32)
            } else {
                None
            },
            TagValue::Longs(v) => if v.len() > 0 {
                Some(v[0])
            } else {
                None
            },
            TagValue::Bytes(v) => if v.len() > 0 {
                Some(v[0] as u32)
            } else {
                None
            },
            _ => None,
        }
    }

    /// Try to get the first value as a u16 (common case)
    pub fn as_u16(&self) -> (r: Option<u16>)
        ensures
            r == spec_as_u16(self@),
    {
        match self {
            TagValue::Shorts(v) => if v.len() > 0 {
                Some(v[0])
            } else {
                None
            },
            TagValue::Bytes(v) => if v.len() > 0 {
                Some(v[0] as u16)
            } else {
                None
            },
            _ => None,
        }
    }

    /// Try to get as a string
    pub fn as_string(&self) -> (r: Option<&str>)
        ensures
            match self@ {
                TagValueModel::Ascii(cs) => r matches Some(s) && s@ == cs,
                _ => r is None,
            },
    {
        match self {
            TagValue::Ascii(s) => Some(s.as_str()),
            _ => None,
        }
    }

    /// Try to get as a vec of u32s
    pub fn as_u32_vec(&self) -> (r: Option<Vec<u32>>)
        ensures
            match r {
                Some(v) => spec_as_u32_seq(self@) == Some(v@),
                None => spec_as_u32_seq(self@) == None::<Seq<u32>>,
            },
    {
        match self {
            TagValue::Longs(v) => {
                let mut out: Vec<u32> = Vec::new();
                let mut i: usize = 0;
                while i < v.len()
                    invariant
                        i <= v@.len(),
                        out@ == v@.subrange(0, i as int),
                    decreases v@.len() - i,
                {
                    out.push(v[i]);
                    proof {
                        assert(out@ =~= v@.subrange(0, i + 1));
                    }
                    i = i + 1;
                }
                proof {
                    assert(out@ =~= v@);
                }
                Some(out)
            },
            TagValue::Shorts(v) => {
                let mut out: Vec<u32> = Vec::new();
                let mut i: usize = 0;
                while i < v.len()
                    invariant
                        i <= v@.len(),
                        out@.len() == i,
                        forall|j: int| 0 <= j < i ==> out@[j] == v@[j] as u32,
                    decreases v@.len() - i,
                {
                    out.push(v[i] as u32);
                    i = i + 1;
                }
                proof {
                    assert(out@ =~= Seq::new(v@.len(), |i: int| v@[i] as u32));
                }
                Some(out)
            },
            _ => None,
        }
    }

    /// Try to get the first value as an i32 (for signed types)
    pub fn as_i32(&self) -> (r: Option<i32>)
        ensures
            r == spec_as_i32(self@),
    {
        match self {
            TagValue::SLongs(v) => if v.len() > 0 {
                Some(v[0])
            } else {
                None
            },
            TagValue::SShorts(v) => if v.len() > 0 {
                Some(v[0] as i32)
            } else {
                None
            },
            TagValue::SBytes(v) => if v.len() > 0 {
                Some(v[0] as i32)
            } else {
                None
            },
            _ => None,
        }
    }

    /// Try to get the first value as an unsigned rational pair
    /// (numerator, denominator)
    ///
    /// Returns the first pair only when its denominator is not zero: a zero
    /// denominator is representable on the wire but names no finite ratio,
    /// so it yields no value here.
    pub fn as_rational(&self) -> (r: Option<(u32, u32)>)
        ensures
            r == spec_as_rational(self@),
    {
        match self {
            TagValue::Rationals(v) => if v.len() > 0 && v[0].1 != 0 {
                Some(v[0])
            } else {
                None
            },
            _ => None,
        }
    }

    /// Try to get the first value as a signed rational pair
    /// (numerator, denominator)
    ///
    /// Returns the first pair only when its denominator is not zero, as with
    /// [`TagValue::as_rational`].
    pub fn as_srational(&self) -> (r: Option<(i32, i32)>)
        ensures
            r == spec_as_srational(self@),
    {
        match self {
            TagValue::SRationals(v) => if v.len() > 0 && v[0].1 != 0 {
                Some(v[0])
            } else {
                None
            },
            _ => None,
        }
    }
}

/// The four bytes of an entry's value slot, re-serialized in the file's
/// byte order. A payload of `n <= 4` bytes occupies the first `n` of them.
pub open spec fn slot_bytes(e: Endian, v: u32) -> Seq<u8> {
    crate::header::spec_u32_bytes(e, v)
}

/// A text payload with exactly one trailing null byte stripped, if present.
pub open spec fn spec_stripped(payload: Seq<u8>) -> Seq<u8> {
    if payload.len() > 0 && payload[payload.len() - 1] == 0 {
        payload.drop_last()
    } else {
        payload
    }
}

/// What decoding a raw payload under the given field type, declared count
/// and byte order yields.
///
/// Fixed-width types decode as consecutive byte groups of their wire size;
/// trailing bytes that do not form a whole element are dropped, as are
/// elements beyond the declared count. Text strips one trailing null and
/// must be valid UTF-8 (`None` means it is not). Floating-point types keep
/// the order-correct integer bit patterns.
pub open spec fn spec_decode(payload: Seq<u8>, ft: FieldType, count: int, e: Endian) -> Option<
    TagValueModel,
> {
    let len = payload.len() as int;
    match ft {
        FieldType::Byte => Some(TagValueModel::Bytes(payload)),
        FieldType::Ascii => match utf8_decode(spec_stripped(payload)) {
            Some(cs) => Some(TagValueModel::Ascii(cs)),
            None => None,
        },
        FieldType::Short => Some(
            TagValueModel::Shorts(
                Seq::new(
                    whole_elems(len, 0, 2, count) as nat,
                    |i: int| u16_at(payload, 2 * i, e) as u16,
                ),
            ),
        ),
        FieldType::Long => Some(
            TagValueModel::Longs(
                Seq::new(
                    whole_elems(len, 0, 4, count) as nat,
                    |i: int| u32_at(payload, 4 * i, e) as u32,
                ),
            ),
        ),
        FieldType::Rational => Some(
            TagValueModel::Rationals(
                Seq::new(
                    whole_elems(len, 0, 8, count) as nat,
                    |i: int|
                        (u32_at(payload, 8 * i, e) as u32, u32_at(payload, 8 * i + 4, e) as u32),
                ),
            ),
        ),
        FieldType::SByte => Some(
            TagValueModel::SBytes(Seq::new(payload.len(), |i: int| payload[i] as i8)),
        ),
        FieldType::Undefined => Some(TagValueModel::Undefined(payload)),
        FieldType::SShort => Some(
            TagValueModel::SShorts(
                Seq::new(
                    whole_elems(len, 0, 2, count) as nat,
                    |i: int| u16_at(payload, 2 * i, e) as u16 as i16,
                ),
            ),
        ),
        FieldType::SLong => Some(
            TagValueModel::SLongs(
                Seq::new(
                    whole_elems(len, 0, 4, count) as nat,
                    |i: int| u32_at(payload, 4 * i, e) as u32 as i32,
                ),
            ),
        ),
        FieldType::SRational => Some(
            TagValueModel::SRationals(
                Seq::new(
                    whole_elems(len, 0, 8, count) as nat,
                    |i: int|
                        (
                            u32_at(payload, 8 * i, e) as u32 as i32,
                            u32_at(payload, 8 * i + 4, e) as u32 as i32,
                        ),
                ),
            ),
        ),
        FieldType::Float => Some(
            TagValueModel::Floats(
                Seq::new(
                    whole_elems(len, 0, 4, count) as nat,
                    |i: int| u32_at(payload, 4 * i, e) as u32,
                ),
            ),
        ),
        FieldType::Double => Some(
            TagValueModel::Doubles(
                Seq::new(
                    whole_elems(len, 0, 8, count) as nat,
                    |i: int| u64_at(payload, 8 * i, e) as u64,
                ),
            ),
        ),
    }
}

/// What decoding a whole directory entry against the data `d` yields: the
/// typed value, or the precise error.
///
/// This is where the format's storage polymorphism is resolved: when the
/// total payload size is at most 4 bytes the payload is the leading bytes of
/// the re-serialized value slot, otherwise the slot is a byte offset into
/// `d` at which the payload lies.
pub open spec fn spec_tag_value(d: Seq<u8>, en: IfdEntry, e: Endian) -> Result<
    TagValueModel,
    ErrorModel,
> {
    match spec_field_type(en.field_type) {
        None => Err(ErrorModel::InvalidFieldType { found: en.field_type }),
        Some(ft) => {
            let total = spec_byte_size(ft) * en.count;
            if total <= 4 {
                match spec_decode(
                    slot_bytes(e, en.value_offset).subrange(0, total),
                    ft,
                    en.count as int,
                    e,
                ) {
                    Some(m) => Ok(m),
                    None => Err(ErrorModel::InvalidString { context: "ASCII tag"@ }),
                }
            } else if en.value_offset + total > d.len() {
                Err(
                    ErrorModel::OutOfBounds {
                        index: sat_index(en.value_offset + total),
                        max: d.len() as int,
                    },
                )
            } else {
                match spec_decode(
                    d.subrange(en.value_offset as int, en.value_offset + total),
                    ft,
                    en.count as int,
                    e,
                ) {
                    Some(m) => Ok(m),
                    None => Err(ErrorModel::InvalidString { context: "ASCII tag"@ }),
                }
            }
        },
    }
}

/// Serialize a 32-bit value slot back into its four wire bytes under the
/// given byte order.
fn slot_to_vec(endian: Endian, v: u32) -> (b: Vec<u8>)
    ensures
        b@ == slot_bytes(endian, v),
{
    let b0 = (v % 0x100) as u8;
    let b1 = ((v / 0x100) % 0x100) as u8;
    let b2 = ((v / 0x1_0000) % 0x100) as u8;
    let b3 = ((v / 0x100_0000) % 0x100) as u8;
    let mut out: Vec<u8> = Vec::new();
    match endian {
        Endian::Little => {
            out.push(b0);
            out.push(b1);
            out.push(b2);
            out.push(b3);
        },
        Endian::Big => {
            out.push(b3);
            out.push(b2);
            out.push(b1);
            out.push(b0);
        },
    }
    proof {
        assert(out@ =~= slot_bytes(endian, v));
    }
    out
}

/// Extension methods for TiffReader to handle IFD parsing
impl<T: TiffDataSource> TiffReader<T> {
    /// Parse the actual value from an IFD entry
    ///
    /// This is where the storage polymorphism is resolved - determining
    /// whether the value is stored inline or at an offset, and parsing it
    /// according to the field type.
    pub fn parse_tag_value(&self, entry: &IfdEntry, endian: Endian) -> (r: Result<
        TagValue,
        TiffError,
    >)
        ensures
            match spec_tag_value(self.spec_contents(), *entry, endian) {
                Ok(m) => r matches Ok(tv) && tv@ == m,
                Err(em) => r matches Err(er) && er@ == em,
            },
    {
        let field_type = match FieldType::from_u16(entry.field_type) {
            Ok(ft) => ft,
            Err(er) => {
                return Err(er);
            },
        };
        let size = field_type.byte_size();
        let total64: u64 = (size as u64) * (entry.count as u64);
        proof {
            assert((size as int) * (entry.count as int) <= 8 * 0xffff_ffff) by (nonlinear_arith)
                requires
                    0 <= size as int <= 8,
                    0 <= entry.count as int <= 0xffff_ffff,
            ;
        }
        if total64 <= 4 {
            let total = total64 as usize;
            let slot = slot_to_vec(endian, entry.value_offset);
            let payload = vstd::slice::slice_subrange(slot.as_slice(), 0, total);
            self.parse_value_from_bytes(payload, field_type, entry.count, endian)
        } else {
            let len = self.len();
            if total64 > (usize::MAX as u64) {
                return Err(TiffError::OutOfBounds { index: usize::MAX, max: len });
            }
            let total = total64 as usize;
            let data_start = entry.value_offset as usize;
            let data = match self.read_bytes_at(data_start, total) {
                Ok(v) => v,
                Err(er) => {
                    return Err(er);
                },
            };
            self.parse_value_from_bytes(data.as_slice(), field_type, entry.count, endian)
        }
    }

    /// Parse value from raw bytes
    #[verifier::loop_isolation(false)]
    fn parse_value_from_bytes(
        &self,
        data: &[u8],
        field_type: FieldType,
        count: u32,
        endian: Endian,
    ) -> (r: Result<TagValue, TiffError>)
        ensures
            match spec_decode(data@, field_type, count as int, endian) {
                Some(m) => r matches Ok(tv) && tv@ == m,
                None => r matches Err(er) && er@ == (ErrorModel::InvalidString {
                    context: "ASCII tag"@,
                }),
            },
    {
        let len = data.len();
        match field_type {
            FieldType::Byte => Ok(TagValue::Bytes(vstd::slice::slice_to_vec(data))),
            FieldType::Ascii => {
                // Remove null terminator if present
                let mut string_data = vstd::slice::slice_to_vec(data);
                if string_data.len() > 0 && string_data[string_data.len() - 1] == 0 {
                    string_data.pop();
                }
                proof {
                    assert(string_data@ =~= spec_stripped(data@));
                }
                match string_from_utf8(string_data) {
                    Some(s) => Ok(TagValue::Ascii(s)),
                    None => Err(TiffError::InvalidString { context: String::from_str("ASCII tag") }),
                }
            },
            FieldType::Short => {
                let n = elem_limit(count, len, 2);
                let mut values: Vec<u16> = Vec::new();
                let mut i: usize = 0;
                while i < n
                    invariant
                        n == whole_elems(data@.len() as int, 0, 2, count as int),
                        2 * n <= data@.len(),
                        i <= n,
                        values@.len() == i,
                        forall|j: int| 0 <= j < i ==> values@[j] == u16_at(data@, 2 * j, endian),
                    decreases n - i,
                {
                    let bytes = [data[i * 2], data[i * 2 + 1]];
                    values.push(endian.read_u16(bytes));
                    i = i + 1;
                }
                proof {
                    assert(values@ =~= Seq::new(
                        whole_elems(data@.len() as int, 0, 2, count as int) as nat,
                        |i: int| u16_at(data@, 2 * i, endian) as u16,
                    ));
                }
                Ok(TagValue::Shorts(values))
            },
            FieldType::Long => {
                let n = elem_limit(count, len, 4);
                let mut values: Vec<u32> = Vec::new();
                let mut i: usize = 0;
                while i < n
                    invariant
                        n == whole_elems(data@.len() as int, 0, 4, count as int),
                        4 * n <= data@.len(),
                        i <= n,
                        values@.len() == i,
                        forall|j: int| 0 <= j < i ==> values@[j] == u32_at(data@, 4 * j, endian),
                    decreases n - i,
                {
                    let bytes = [data[i * 4], data[i * 4 + 1], data[i * 4 + 2], data[i * 4 + 3]];
                    values.push(endian.read_u32(bytes));
                    i = i + 1;
                }
                proof {
                    assert(values@ =~= Seq::new(
                        whole_elems(data@.len() as int, 0, 4, count as int) as nat,
                        |i: int| u32_at(data@, 4 * i, endian) as u32,
                    ));
                }
                Ok(TagValue::Longs(values))
            },
            FieldType::Rational => {
                let n = elem_limit(count, len, 8);
                let mut values: Vec<(u32, u32)> = Vec::new();
                let mut i: usize = 0;
                while i < n
                    invariant
                        n == whole_elems(data@.len() as int, 0, 8, count as int),
                        8 * n <= data@.len(),
                        i <= n,
                        values@.len() == i,
                        forall|j: int|
                            0 <= j < i ==> values@[j] == (
                                u32_at(data@, 8 * j, endian) as u32,
                                u32_at(data@, 8 * j + 4, endian) as u32,
                            ),
                    decreases n - i,
                {
                    let num_bytes = [
                        data[i * 8],
                        data[i * 8 + 1],
                        data[i * 8 + 2],
                        data[i * 8 + 3],
                    ];
                    let den_bytes = [
                        data[i * 8 + 4],
                        data[i * 8 + 5],
                        data[i * 8 + 6],
                        data[i * 8 + 7],
                    ];
                    let numerator = endian.read_u32(num_bytes);
                    let denominator = endian.read_u32(den_bytes);
                    values.push((numerator, denominator));
                    i = i + 1;
                }
                proof {
                    assert(values@ =~= Seq::new(
                        whole_elems(data@.len() as int, 0, 8, count as int) as nat,
                        |i: int|
                            (
                                u32_at(data@, 8 * i, endian) as u32,
                                u32_at(data@, 8 * i + 4, endian) as u32,
                            ),
                    ));
                }
                Ok(TagValue::Rationals(values))
            },
            FieldType::SByte => {
                let mut values: Vec<i8> = Vec::new();
                let mut i: usize = 0;
                while i < len
                    invariant
                        len == data@.len(),
                        i <= len,
                        values@.len() == i,
                        forall|j: int| 0 <= j < i ==> values@[j] == data@[j] as i8,
                    decreases len - i,
                {
                    values.push(data[i] as i8);
                    i = i + 1;
                }
                proof {
                    assert(values@ =~= Seq::new(data@.len(), |i: int| data@[i] as i8));
                }
                Ok(TagValue::SBytes(values))
            },
            FieldType::Undefined => Ok(TagValue::Undefined(vstd::slice::slice_to_vec(data))),
            FieldType::SShort => {
                let n = elem_limit(count, len, 2);
                let mut values: Vec<i16> = Vec::new();
                let mut i: usize = 0;
                while i < n
                    invariant
                        n == whole_elems(data@.len() as int, 0, 2, count as int),
                        2 * n <= data@.len(),
                        i <= n,
                        values@.len() == i,
                        forall|j: int|
                            0 <= j < i ==> values@[j] == u16_at(data@, 2 * j, endian) as u16 as i16,
                    decreases n - i,
                {
                    let bytes = [data[i * 2], data[i * 2 + 1]];
                    values.push(endian.read_u16(bytes) as i16);
                    i = i + 1;
                }
                proof {
                    assert(values@ =~= Seq::new(
                        whole_elems(data@.len() as int, 0, 2, count as int) as nat,
                        |i: int| u16_at(data@, 2 * i, endian) as u16 as i16,
                    ));
                }
                Ok(TagValue::SShorts(values))
            },
            FieldType::SLong => {
                let n = elem_limit(count, len, 4);
                let mut values: Vec<i32> = Vec::new();
                let mut i: usize = 0;
                while i < n
                    invariant
                        n == whole_elems(data@.len() as int, 0, 4, count as int),
                        4 * n <= data@.len(),
                        i <= n,
                        values@.len() == i,
                        forall|j: int|
                            0 <= j < i ==> values@[j] == u32_at(data@, 4 * j, endian) as u32 as i32,
                    decreases n - i,
                {
                    let bytes = [data[i * 4], data[i * 4 + 1], data[i * 4 + 2], data[i * 4 + 3]];
                    values.push(endian.read_u32(bytes) as i32);
                    i = i + 1;
                }
                proof {
                    assert(values@ =~= Seq::new(
                        whole_elems(data@.len() as int, 0, 4, count as int) as nat,
                        |i: int| u32_at(data@, 4 * i, endian) as u32 as i32,
                    ));
                }
                Ok(TagValue::SLongs(values))
            },
            FieldType::SRational => {
                let n = elem_limit(count, len, 8);
                let mut values: Vec<(i32, i32)> = Vec::new();
                let mut i: usize = 0;
                while i < n
                    invariant
                        n == whole_elems(data@.len() as int, 0, 8, count as int),
                        8 * n <= data@.len(),
                        i <= n,
                        values@.len() == i,
                        forall|j: int|
                            0 <= j < i ==> values@[j] == (
                                u32_at(data@, 8 * j, endian) as u32 as i32,
                                u32_at(data@, 8 * j + 4, endian) as u32 as i32,
                            ),
                    decreases n - i,
                {
                    let num_bytes = [
                        data[i * 8],
                        data[i * 8 + 1],
                        data[i * 8 + 2],
                        data[i * 8 + 3],
                    ];
                    let den_bytes = [
                        data[i * 8 + 4],
                        data[i * 8 + 5],
                        data[i * 8 + 6],
                        data[i * 8 + 7],
                    ];
                    let numerator = endian.read_u32(num_bytes) as i32;
                    let denominator = endian.read_u32(den_bytes) as i32;
                    values.push((numerator, denominator));
                    i = i + 1;
                }
                proof {
                    assert(values@ =~= Seq::new(
                        whole_elems(data@.len() as int, 0, 8, count as int) as nat,
                        |i: int|
                            (
                                u32_at(data@, 8 * i, endian) as u32 as i32,
                                u32_at(data@, 8 * i + 4, endian) as u32 as i32,
                            ),
                    ));
                }
                Ok(TagValue::SRationals(values))
            },
            FieldType::Float => {
                let n = elem_limit(count, len, 4);
                let mut values: Vec<u32> = Vec::new();
                let mut i: usize = 0;
                while i < n
                    invariant
                        n == whole_elems(data@.len() as int, 0, 4, count as int),
                        4 * n <= data@.len(),
                        i <= n,
                        values@.len() == i,
                        forall|j: int| 0 <= j < i ==> values@[j] == u32_at(data@, 4 * j, endian),
                    decreases n - i,
                {
                    let bytes = [data[i * 4], data[i * 4 + 1], data[i * 4 + 2], data[i * 4 + 3]];
                    values.push(endian.read_u32(bytes));
                    i = i + 1;
                }
                proof {
                    assert(values@ =~= Seq::new(
                        whole_elems(data@.len() as int, 0, 4, count as int) as nat,
                        |i: int| u32_at(data@, 4 * i, endian) as u32,
                    ));
                }
                Ok(TagValue::Floats(values))
            },
            FieldType::Double => {
                let n = elem_limit(count, len, 8);
                let mut values: Vec<u64> = Vec::new();
                let mut i: usize = 0;
                while i < n
                    invariant
                        n == whole_elems(data@.len() as int, 0, 8, count as int),
                        8 * n <= data@.len(),
                        i <= n,
                        values@.len() == i,
                        forall|j: int| 0 <= j < i ==> values@[j] == u64_at(data@, 8 * j, endian),
                    decreases n - i,
                {
                    let bytes = [
                        data[i * 8],
                        data[i * 8 + 1],
                        data[i * 8 + 2],
                        data[i * 8 + 3],
                        data[i * 8 + 4],
                        data[i * 8 + 5],
                        data[i * 8 + 6],
                        data[i * 8 + 7],
                    ];
                    values.push(endian.read_u64(bytes));
                    i = i + 1;
                }
                proof {
                    assert(values@ =~= Seq::new(
                        whole_elems(data@.len() as int, 0, 8, count as int) as nat,
                        |i: int| u64_at(data@, 8 * i, endian) as u64,
                    ));
                }
                Ok(TagValue::Doubles(values))
            },
        }
    }
}

/// The directory entry whose 12 bytes start at `off` in `d`.
pub open spec fn spec_entry_at(d: Seq<u8>, off: int, e: Endian) -> IfdEntry {
    IfdEntry {
        tag: u16_at(d, off, e) as u16,
        field_type: u16_at(d, off + 2, e) as u16,
        count: u32_at(d, off + 4, e) as u32,
        value_offset: u32_at(d, off + 8, e) as u32,
    }
}

/// Mathematical model of an [`ImageFileDirectory`]: its entries in file
/// order and the offset of the next directory.
pub struct DirectoryModel {
    /// The decoded 12-byte entries, in file order.
    pub entries: Seq<IfdEntry>,
    /// Offset of the next directory; 0 ends the chain.
    pub next_ifd_offset: int,
}

/// Whether a whole directory (entry count, entries, next-offset) lies within
/// the data when read at `off`.
pub open spec fn spec_ifd_fits(d: Seq<u8>, off: int, e: Endian) -> bool {
    &&& off + 2 <= d.len()
    &&& off + 2 + 12 * u16_at(d, off, e) + 4 <= d.len()
}

/// The directory starting at `off` in `d` (meaningful when it fits).
pub open spec fn spec_ifd_at(d: Seq<u8>, off: int, e: Endian) -> DirectoryModel {
    let n = u16_at(d, off, e);
    DirectoryModel {
        entries: Seq::new(n as nat, |i: int| spec_entry_at(d, off + 2 + 12 * i, e)),
        next_ifd_offset: u32_at(d, off + 2 + 12 * n, e),
    }
}

/// How many bytes of a 12-byte entry at `p` can be read whole before its
/// field reads run past `len`. The fields are read as 2, 2, 4, 4 bytes.
pub open spec fn entry_ok_bytes(len: int, p: int) -> int {
    if p + 2 > len {
        0
    } else if p + 4 > len {
        2
    } else if p + 8 > len {
        4
    } else {
        8
    }
}

/// The end index of the first field read of an entry at `p` that runs past
/// `len` (meaningful when `p + 12 > len`).
pub open spec fn entry_fail_index(len: int, p: int) -> int {
    if p + 2 > len {
        p + 2
    } else if p + 4 > len {
        p + 4
    } else if p + 8 > len {
        p + 8
    } else {
        p + 12
    }
}

/// The exact error produced by reading a directory at `off` that does not
/// fit within `d`.
pub open spec fn spec_ifd_err(d: Seq<u8>, off: int, e: Endian) -> ErrorModel {
    let len = d.len() as int;
    if off > len {
        ErrorModel::OutOfBounds { index: off, max: len }
    } else if off + 2 > len {
        ErrorModel::OutOfBounds { index: sat_index(off + 2), max: len }
    } else {
        let n = u16_at(d, off, e);
        let k = whole_elems(len, off + 2, 12, n);
        if k < n {
            ErrorModel::OutOfBounds {
                index: sat_index(entry_fail_index(len, off + 2 + 12 * k)),
                max: len,
            }
        } else {
            ErrorModel::OutOfBounds { index: sat_index(off + 2 + 12 * n + 4), max: len }
        }
    }
}

/// The cursor position after a failed directory read at `off`.
pub open spec fn spec_ifd_err_pos(d: Seq<u8>, off: int, e: Endian, oldpos: int) -> int {
    let len = d.len() as int;
    if off > len {
        oldpos
    } else if off + 2 > len {
        off
    } else {
        let n = u16_at(d, off, e);
        let k = whole_elems(len, off + 2, 12, n);
        if k < n {
            off + 2 + 12 * k + entry_ok_bytes(len, off + 2 + 12 * k)
        } else {
            off + 2 + 12 * n
        }
    }
}

/// An Image File Directory containing tag entries
///
/// This represents one "page" or "image" in a TIFF file. Multi-page
/// TIFFs have multiple IFDs linked together.
#[derive(Debug, Clone)]
pub struct ImageFileDirectory {
    /// The IFD entries (tags)
    pub entries: Vec<IfdEntry>,
    /// Offset to the next IFD (0 if this is the last one)
    pub next_ifd_offset: usize,
}

impl View for ImageFileDirectory {
    type V = DirectoryModel;

    open spec fn view(&self) -> DirectoryModel {
        DirectoryModel { entries: self.entries@, next_ifd_offset: self.next_ifd_offset as int }
    }
}

impl ImageFileDirectory {
    /// Find an entry by tag number
    pub fn find_entry(&self, tag: u16) -> (r: Option<&IfdEntry>)
        ensures
            match r {
                Some(en) => spec_find_entry(self@.entries, tag) == Some(*en),
                None => spec_find_entry(self@.entries, tag) == None::<IfdEntry>,
            },
    {
        let mut i: usize = 0;
        while i < self.entries.len()
            invariant
                i <= self@.entries.len(),
                forall|j: int| 0 <= j < i ==> self@.entries[j].tag != tag,
            decreases self@.entries.len() - i,
        {
            if self.entries[i].tag == tag {
                proof {
                    lemma_find_entry_at(self@.entries, tag, i as int);
                }
                return Some(&self.entries[i]);
            }
            i = i + 1;
        }
        proof {
            lemma_find_entry_none(self@.entries, tag);
        }
        None
    }

    /// Get the number of entries
    pub fn len(&self) -> (n: usize)
        ensures
            n == self@.entries.len(),
    {
        self.entries.len()
    }

    /// Check if the IFD is empty
    pub fn is_empty(&self) -> (b: bool)
        ensures
            b == (self@.entries.len() == 0),
    {
        self.entries.is_empty()
    }

    /// Get a parsed tag value by tag number
    ///
    /// This is a convenience method that finds the entry and parses its value.
    pub fn get_tag_value<T: TiffDataSource>(
        &self,
        tag: u16,
        reader: &TiffReader<T>,
        endian: Endian,
    ) -> (r: Result<Option<TagValue>, TiffError>)
        ensures
            match spec_lookup(reader.spec_contents(), self@.entries, tag, endian) {
                Ok(opt) => r matches Ok(ro) && match opt {
                    Some(m) => ro matches Some(tv) && tv@ == m,
                    None => ro is None,
                },
                Err(em) => r matches Err(er) && er@ == em,
            },
    {
        if let Some(entry) = self.find_entry(tag) {
            match reader.parse_tag_value(entry, endian) {
                Ok(tv) => Ok(Some(tv)),
                Err(er) => Err(er),
            }
        } else {
            Ok(None)
        }
    }

    // =============================================================================
    // Basic image information convenience methods
    // =============================================================================

    /// Get image width in pixels
    pub fn image_width<T: TiffDataSource>(&self, reader: &TiffReader<T>, endian: Endian) -> (r:
        Result<Option<u32>, TiffError>)
        ensures
            result_matches(
                r,
                spec_u32_tag(
                    reader.spec_contents(),
                    self@.entries,
                    crate::tags::IMAGE_WIDTH,
                    endian,
                ),
            ),
    {
        match self.get_tag_value(crate::tags::IMAGE_WIDTH, reader, endian) {
            Ok(Some(v)) => Ok(v.as_u32()),
            Ok(None) => Ok(None),
            Err(er) => Err(er),
        }
    }

    /// Get image height in pixels
    pub fn image_height<T: TiffDataSource>(&self, reader: &TiffReader<T>, endian: Endian) -> (r:
        Result<Option<u32>, TiffError>)
        ensures
            result_matches(
                r,
                spec_u32_tag(
                    reader.spec_contents(),
                    self@.entries,
                    crate::tags::IMAGE_LENGTH,
                    endian,
                ),
            ),
    {
        match self.get_tag_value(crate::tags::IMAGE_LENGTH, reader, endian) {
            Ok(Some(v)) => Ok(v.as_u32()),
            Ok(None) => Ok(None),
            Err(er) => Err(er),
        }
    }

    /// Get bits per sample (per channel)
    pub fn bits_per_sample<T: TiffDataSource>(&self, reader: &TiffReader<T>, endian: Endian) -> (r:
        Result<Option<Vec<u32>>, TiffError>)
        ensures
            match spec_u32_seq_tag(
                reader.spec_contents(),
                self@.entries,
                crate::tags::BITS_PER_SAMPLE,
                endian,
            ) {
                Ok(opt) => r matches Ok(ro) && match opt {
                    Some(s) => ro matches Some(v) && v@ == s,
                    None => ro is None,
                },
                Err(em) => r matches Err(er) && er@ == em,
            },
    {
        match self.get_tag_value(crate::tags::BITS_PER_SAMPLE, reader, endian) {
            Ok(Some(v)) => Ok(v.as_u32_vec()),
            Ok(None) => Ok(None),
            Err(er) => Err(er),
        }
    }

    /// Get samples (channels) per pixel
    pub fn samples_per_pixel<T: TiffDataSource>(&self, reader: &TiffReader<T>, endian: Endian) -> (r:
        Result<Option<u32>, TiffError>)
        ensures
            result_matches(
                r,
                spec_u32_tag(
                    reader.spec_contents(),
                    self@.entries,
                    crate::tags::SAMPLES_PER_PIXEL,
                    endian,
                ),
            ),
    {
        match self.get_tag_value(crate::tags::SAMPLES_PER_PIXEL, reader, endian) {
            Ok(Some(v)) => Ok(v.as_u32()),
            Ok(None) => Ok(None),
            Err(er) => Err(er),
        }
    }

    /// Get compression type
    pub fn compression<T: TiffDataSource>(&self, reader: &TiffReader<T>, endian: Endian) -> (r:
        Result<Option<crate::tags::Compression>, TiffError>)
        ensures
            result_matches(
                r,
                spec_compression_tag(reader.spec_contents(), self@.entries, endian),
            ),
    {
        match self.get_tag_value(crate::tags::COMPRESSION, reader, endian) {
            Ok(Some(v)) => match v.as_u32() {
                Some(code) => Ok(crate::tags::Compression::from_u32(code)),
                None => Ok(None),
            },
            Ok(None) => Ok(None),
            Err(er) => Err(er),
        }
    }

    /// Get photometric interpretation
    pub fn photometric_interpretation<T: TiffDataSource>(
        &self,
        reader: &TiffReader<T>,
        endian: Endian,
    ) -> (r: Result<Option<crate::tags::PhotometricInterpretation>, TiffError>)
        ensures
            result_matches(
                r,
                spec_photometric_tag(reader.spec_contents(), self@.entries, endian),
            ),
    {
        match self.get_tag_value(crate::tags::PHOTOMETRIC_INTERPRETATION, reader, endian) {
            Ok(Some(v)) => match v.as_u32() {
                Some(code) => Ok(crate::tags::PhotometricInterpretation::from_u32(code)),
                None => Ok(None),
            },
            Ok(None) => Ok(None),
            Err(er) => Err(er),
        }
    }

    /// Get sample format
    pub fn sample_format<T: TiffDataSource>(&self, reader: &TiffReader<T>, endian: Endian) -> (r:
        Result<Option<crate::tags::SampleFormat>, TiffError>)
        ensures
            result_matches(
                r,
                spec_sample_format_tag(reader.spec_contents(), self@.entries, endian),
            ),
    {
        match self.get_tag_value(crate::tags::SAMPLE_FORMAT, reader, endian) {
            Ok(Some(v)) => match v.as_u32() {
                Some(code) => Ok(crate::tags::SampleFormat::from_u32(code)),
                None => Ok(None),
            },
            Ok(None) => Ok(None),
            Err(er) => Err(er),
        }
    }

    // =============================================================================
    // Image data organization convenience methods
    // =============================================================================

    /// Get strip offsets (where image data is stored)
    pub fn strip_offsets<T: TiffDataSource>(&self, reader: &TiffReader<T>, endian: Endian) -> (r:
        Result<Option<Vec<u32>>, TiffError>)
        ensures
            match spec_u32_seq_tag(
                reader.spec_contents(),
                self@.entries,
                crate::tags::STRIP_OFFSETS,
                endian,
            ) {
                Ok(opt) => r matches Ok(ro) && match opt {
                    Some(s) => ro matches Some(v) && v@ == s,
                    None => ro is None,
                },
                Err(em) => r matches Err(er) && er@ == em,
            },
    {
        match self.get_tag_value(crate::tags::STRIP_OFFSETS, reader, endian) {
            Ok(Some(v)) => Ok(v.as_u32_vec()),
            Ok(None) => Ok(None),
            Err(er) => Err(er),
        }
    }

    /// Get strip byte counts (how much data per strip)
    pub fn strip_byte_counts<T: TiffDataSource>(&self, reader: &TiffReader<T>, endian: Endian) -> (r:
        Result<Option<Vec<u32>>, TiffError>)
        ensures
            match spec_u32_seq_tag(
                reader.spec_contents(),
                self@.entries,
                crate::tags::STRIP_BYTE_COUNTS,
                endian,
            ) {
                Ok(opt) => r matches Ok(ro) && match opt {
                    Some(s) => ro matches Some(v) && v@ == s,
                    None => ro is None,
                },
                Err(em) => r matches Err(er) && er@ == em,
            },
    {
        match self.get_tag_value(crate::tags::STRIP_BYTE_COUNTS, reader, endian) {
            Ok(Some(v)) => Ok(v.as_u32_vec()),
            Ok(None) => Ok(None),
            Err(er) => Err(er),
        }
    }

    /// Get rows per strip
    pub fn rows_per_strip<T: TiffDataSource>(&self, reader: &TiffReader<T>, endian: Endian) -> (r:
        Result<Option<u32>, TiffError>)
        ensures
            result_matches(
                r,
                spec_u32_tag(
                    reader.spec_contents(),
                    self@.entries,
                    crate::tags::ROWS_PER_STRIP,
                    endian,
                ),
            ),
    {
        match self.get_tag_value(crate::tags::ROWS_PER_STRIP, reader, endian) {
            Ok(Some(v)) => Ok(v.as_u32()),
            Ok(None) => Ok(None),
            Err(er) => Err(er),
        }
    }

    /// Get tile width (for tiled images)
    pub fn tile_width<T: TiffDataSource>(&self, reader: &TiffReader<T>, endian: Endian) -> (r:
        Result<Option<u32>, TiffError>)
        ensures
            result_matches(
                r,
                spec_u32_tag(
                    reader.spec_contents(),
                    self@.entries,
                    crate::tags::TILE_WIDTH,
                    endian,
                ),
            ),
    {
        match self.get_tag_value(crate::tags::TILE_WIDTH, reader, endian) {
            Ok(Some(v)) => Ok(v.as_u32()),
            Ok(None) => Ok(None),
            Err(er) => Err(er),
        }
    }

    /// Get tile height (for tiled images)
    pub fn tile_height<T: TiffDataSource>(&self, reader: &TiffReader<T>, endian: Endian) -> (r:
        Result<Option<u32>, TiffError>)
        ensures
            result_matches(
                r,
                spec_u32_tag(
                    reader.spec_contents(),
                    self@.entries,
                    crate::tags::TILE_LENGTH,
                    endian,
                ),
            ),
    {
        match self.get_tag_value(crate::tags::TILE_LENGTH, reader, endian) {
            Ok(Some(v)) => Ok(v.as_u32()),
            Ok(None) => Ok(None),
            Err(er) => Err(er),
        }
    }

    /// Get tile offsets (for tiled images)
    pub fn tile_offsets<T: TiffDataSource>(&self, reader: &TiffReader<T>, endian: Endian) -> (r:
        Result<Option<Vec<u32>>, TiffError>)
        ensures
            match spec_u32_seq_tag(
                reader.spec_contents(),
                self@.entries,
                crate::tags::TILE_OFFSETS,
                endian,
            ) {
                Ok(opt) => r matches Ok(ro) && match opt {
                    Some(s) => ro matches Some(v) && v@ == s,
                    None => ro is None,
                },
                Err(em) => r matches Err(er) && er@ == em,
            },
    {
        match self.get_tag_value(crate::tags::TILE_OFFSETS, reader, endian) {
            Ok(Some(v)) => Ok(v.as_u32_vec()),
            Ok(None) => Ok(None),
            Err(er) => Err(er),
        }
    }

    /// Get tile byte counts (for tiled images)
    pub fn tile_byte_counts<T: TiffDataSource>(&self, reader: &TiffReader<T>, endian: Endian) -> (r:
        Result<Option<Vec<u32>>, TiffError>)
        ensures
            match spec_u32_seq_tag(
                reader.spec_contents(),
                self@.entries,
                crate::tags::TILE_BYTE_COUNTS,
                endian,
            ) {
                Ok(opt) => r matches Ok(ro) && match opt {
                    Some(s) => ro matches Some(v) && v@ == s,
                    None => ro is None,
                },
                Err(em) => r matches Err(er) && er@ == em,
            },
    {
        match self.get_tag_value(crate::tags::TILE_BYTE_COUNTS, reader, endian) {
            Ok(Some(v)) => Ok(v.as_u32_vec()),
            Ok(None) => Ok(None),
            Err(er) => Err(er),
        }
    }

    /// Check if this image uses tiled layout (vs strip layout)
    pub fn is_tiled<T: TiffDataSource>(&self, reader: &TiffReader<T>, endian: Endian) -> (r: Result<
        bool,
        TiffError,
    >)
        ensures
            result_matches(r, spec_is_tiled(reader.spec_contents(), self@.entries, endian)),
    {
        match self.tile_width(reader, endian) {
            Ok(opt) => Ok(opt.is_some()),
            Err(er) => Err(er),
        }
    }

    // =============================================================================
    // Resolution convenience methods
    // =============================================================================

    /// Get resolution unit
    pub fn resolution_unit<T: TiffDataSource>(&self, reader: &TiffReader<T>, endian: Endian) -> (r:
        Result<Option<crate::tags::ResolutionUnit>, TiffError>)
        ensures
            result_matches(
                r,
                spec_resolution_unit_tag(reader.spec_contents(), self@.entries, endian),
            ),
    {
        match self.get_tag_value(crate::tags::RESOLUTION_UNIT, reader, endian) {
            Ok(Some(v)) => match v.as_u32() {
                Some(code) => Ok(crate::tags::ResolutionUnit::from_u32(code)),
                None => Ok(None),
            },
            Ok(None) => Ok(None),
            Err(er) => Err(er),
        }
    }

    /// Get X resolution (horizontal) as a rational pair
    ///
    /// The pair is returned only when its denominator is not zero, so the
    /// ratio it names is always finite.
    pub fn x_resolution_rational<T: TiffDataSource>(
        &self,
        reader: &TiffReader<T>,
        endian: Endian,
    ) -> (r: Result<Option<(u32, u32)>, TiffError>)
        ensures
            result_matches(
                r,
                spec_rational_tag(
                    reader.spec_contents(),
                    self@.entries,
                    crate::tags::X_RESOLUTION,
                    endian,
                ),
            ),
    {
        match self.get_tag_value(crate::tags::X_RESOLUTION, reader, endian) {
            Ok(Some(v)) => Ok(v.as_rational()),
            Ok(None) => Ok(None),
            Err(er) => Err(er),
        }
    }

    /// Get Y resolution (vertical) as a rational pair
    ///
    /// The pair is returned only when its denominator is not zero, so the
    /// ratio it names is always finite.
    pub fn y_resolution_rational<T: TiffDataSource>(
        &self,
        reader: &TiffReader<T>,
        endian: Endian,
    ) -> (r: Result<Option<(u32, u32)>, TiffError>)
        ensures
            result_matches(
                r,
                spec_rational_tag(
                    reader.spec_contents(),
                    self@.entries,
                    crate::tags::Y_RESOLUTION,
                    endian,
                ),
            ),
    {
        match self.get_tag_value(crate::tags::Y_RESOLUTION, reader, endian) {
            Ok(Some(v)) => Ok(v.as_rational()),
            Ok(None) => Ok(None),
            Err(er) => Err(er),
        }
    }

    // =============================================================================
    // Metadata convenience methods
    // =============================================================================

    /// Get image description
    pub fn image_description<T: TiffDataSource>(&self, reader: &TiffReader<T>, endian: Endian) -> (r:
        Result<Option<String>, TiffError>)
        ensures
            string_result_matches(
                r,
                spec_string_tag(
                    reader.spec_contents(),
                    self@.entries,
                    crate::tags::IMAGE_DESCRIPTION,
                    endian,
                ),
            ),
    {
        self.string_tag_value(crate::tags::IMAGE_DESCRIPTION, reader, endian)
    }

    /// Get make/manufacturer
    pub fn make<T: TiffDataSource>(&self, reader: &TiffReader<T>, endian: Endian) -> (r: Result<
        Option<String>,
        TiffError,
    >)
        ensures
            string_result_matches(
                r,
                spec_string_tag(reader.spec_contents(), self@.entries, crate::tags::MAKE, endian),
            ),
    {
        self.string_tag_value(crate::tags::MAKE, reader, endian)
    }

    /// Get model
    pub fn model<T: TiffDataSource>(&self, reader: &TiffReader<T>, endian: Endian) -> (r: Result<
        Option<String>,
        TiffError,
    >)
        ensures
            string_result_matches(
                r,
                spec_string_tag(reader.spec_contents(), self@.entries, crate::tags::MODEL, endian),
            ),
    {
        self.string_tag_value(crate::tags::MODEL, reader, endian)
    }

    /// Get software used to create the image
    pub fn software<T: TiffDataSource>(&self, reader: &TiffReader<T>, endian: Endian) -> (r: Result<
        Option<String>,
        TiffError,
    >)
        ensures
            string_result_matches(
                r,
                spec_string_tag(
                    reader.spec_contents(),
                    self@.entries,
                    crate::tags::SOFTWARE,
                    endian,
                ),
            ),
    {
        self.string_tag_value(crate::tags::SOFTWARE, reader, endian)
    }

    /// Get creation date/time
    pub fn date_time<T: TiffDataSource>(&self, reader: &TiffReader<T>, endian: Endian) -> (r:
        Result<Option<String>, TiffError>)
        ensures
            string_result_matches(
                r,
                spec_string_tag(
                    reader.spec_contents(),
                    self@.entries,
                    crate::tags::DATE_TIME,
                    endian,
                ),
            ),
    {
        self.string_tag_value(crate::tags::DATE_TIME, reader, endian)
    }

    /// Get artist/photographer
    pub fn artist<T: TiffDataSource>(&self, reader: &TiffReader<T>, endian: Endian) -> (r: Result<
        Option<String>,
        TiffError,
    >)
        ensures
            string_result_matches(
                r,
                spec_string_tag(reader.spec_contents(), self@.entries, crate::tags::ARTIST, endian),
            ),
    {
        self.string_tag_value(crate::tags::ARTIST, reader, endian)
    }

    /// Get copyright notice
    pub fn copyright<T: TiffDataSource>(&self, reader: &TiffReader<T>, endian: Endian) -> (r:
        Result<Option<String>, TiffError>)
        ensures
            string_result_matches(
                r,
                spec_string_tag(
                    reader.spec_contents(),
                    self@.entries,
                    crate::tags::COPYRIGHT,
                    endian,
                ),
            ),
    {
        self.string_tag_value(crate::tags::COPYRIGHT, reader, endian)
    }

    /// Look a tag up and coerce it to owned text.
    fn string_tag_value<T: TiffDataSource>(
        &self,
        tag: u16,
        reader: &TiffReader<T>,
        endian: Endian,
    ) -> (r: Result<Option<String>, TiffError>)
        ensures
            string_result_matches(
                r,
                spec_string_tag(reader.spec_contents(), self@.entries, tag, endian),
            ),
    {
        match self.get_tag_value(tag, reader, endian) {
            Ok(Some(v)) => match v {
                TagValue::Ascii(s) => Ok(Some(s)),
                _ => Ok(None),
            },
            Ok(None) => Ok(None),
            Err(er) => Err(er),
        }
    }

    // =============================================================================
    // Validation and summary methods
    // =============================================================================

    /// Check if this IFD has all required tags for a valid TIFF
    ///
    /// Width and height must be present, together with either both strip
    /// tags or both tile tags - the format's two mutually exclusive data
    /// layout schemes.
    pub fn is_valid_tiff<T: TiffDataSource>(&self, reader: &TiffReader<T>, endian: Endian) -> (r:
        Result<bool, TiffError>)
        ensures
            result_matches(r, spec_is_valid_tiff(reader.spec_contents(), self@.entries, endian)),
    {
        let has_width = match self.image_width(reader, endian) {
            Ok(v) => v.is_some(),
            Err(er) => {
                return Err(er);
            },
        };
        let has_height = match self.image_height(reader, endian) {
            Ok(v) => v.is_some(),
            Err(er) => {
                return Err(er);
            },
        };
        let has_strips = match self.strip_offsets(reader, endian) {
            Ok(v) => v.is_some(),
            Err(er) => {
                return Err(er);
            },
        };
        let has_strip_counts = match self.strip_byte_counts(reader, endian) {
            Ok(v) => v.is_some(),
            Err(er) => {
                return Err(er);
            },
        };
        let has_tiles = match self.tile_offsets(reader, endian) {
            Ok(v) => v.is_some(),
            Err(er) => {
                return Err(er);
            },
        };
        let has_tile_counts = match self.tile_byte_counts(reader, endian) {
            Ok(v) => v.is_some(),
            Err(er) => {
                return Err(er);
            },
        };
        Ok(
            has_width && has_height && ((has_strips && has_strip_counts) || (has_tiles
                && has_tile_counts)),
        )
    }

    /// Get a summary of the image described by this IFD
    pub fn image_summary<T: TiffDataSource>(&self, reader: &TiffReader<T>, endian: Endian) -> (r:
        Result<ImageSummary, TiffError>)
        ensures
            match spec_image_summary(reader.spec_contents(), self@.entries, endian) {
                Ok(m) => r matches Ok(s) && s@ == m,
                Err(em) => r matches Err(er) && er@ == em,
            },
    {
        proof {
            reveal(spec_image_summary);
        }
        let width = match self.image_width(reader, endian) {
            Ok(v) => v.unwrap_or(0),
            Err(er) => {
                return Err(er);
            },
        };
        let height = match self.image_height(reader, endian) {
            Ok(v) => v.unwrap_or(0),
            Err(er) => {
                return Err(er);
            },
        };
        let samples_per_pixel = match self.samples_per_pixel(reader, endian) {
            Ok(v) => v.unwrap_or(1),
            Err(er) => {
                return Err(er);
            },
        };
        let bits_per_sample = match self.bits_per_sample(reader, endian) {
            Ok(Some(v)) => v,
            Ok(None) => ones(samples_per_pixel as usize),
            Err(er) => {
                return Err(er);
            },
        };
        let compression = match self.compression(reader, endian) {
            Ok(v) => v.unwrap_or(crate::tags::Compression::Uncompressed),
            Err(er) => {
                return Err(er);
            },
        };
        let photometric_interpretation = match self.photometric_interpretation(reader, endian) {
            Ok(v) => v,
            Err(er) => {
                return Err(er);
            },
        };
        let is_tiled = match self.is_tiled(reader, endian) {
            Ok(v) => v,
            Err(er) => {
                return Err(er);
            },
        };
        Ok(
            ImageSummary {
                width,
                height,
                samples_per_pixel,
                bits_per_sample,
                compression,
                photometric_interpretation,
                is_tiled,
            },
        )
    }
}

/// A vector holding `n` ones: the format's default bit depth is one bit per
/// sample.
fn ones(n: usize) -> (v: Vec<u32>)
    ensures
        v@ == Seq::new(n as nat, |i: int| 1u32),
{
    let mut v: Vec<u32> = Vec::new();
    let mut i: usize = 0;
    while i < n
        invariant
            i <= n,
            v@.len() == i,
            forall|j: int| 0 <= j < i ==> v@[j] == 1u32,
        decreases n - i,
    {
        v.push(1);
        i = i + 1;
    }
    proof {
        assert(v@ =~= Seq::new(n as nat, |i: int| 1u32));
    }
    v
}

/// A tag looked up and coerced to a compression scheme.
pub open spec fn spec_compression_tag(d: Seq<u8>, entries: Seq<IfdEntry>, e: Endian) -> Result<
    Option<crate::tags::Compression>,
    ErrorModel,
> {
    match spec_u32_tag(d, entries, crate::tags::COMPRESSION, e) {
        Ok(opt) => match opt {
            Some(v) => Ok(crate::tags::spec_compression_from(v)),
            None => Ok(None),
        },
        Err(em) => Err(em),
    }
}

/// A tag looked up and coerced to a photometric interpretation.
pub open spec fn spec_photometric_tag(d: Seq<u8>, entries: Seq<IfdEntry>, e: Endian) -> Result<
    Option<crate::tags::PhotometricInterpretation>,
    ErrorModel,
> {
    match spec_u32_tag(d, entries, crate::tags::PHOTOMETRIC_INTERPRETATION, e) {
        Ok(opt) => match opt {
            Some(v) => Ok(crate::tags::spec_photometric_from(v)),
            None => Ok(None),
        },
        Err(em) => Err(em),
    }
}

/// A tag looked up and coerced to a sample format.
pub open spec fn spec_sample_format_tag(d: Seq<u8>, entries: Seq<IfdEntry>, e: Endian) -> Result<
    Option<crate::tags::SampleFormat>,
    ErrorModel,
> {
    match spec_u32_tag(d, entries, crate::tags::SAMPLE_FORMAT, e) {
        Ok(opt) => match opt {
            Some(v) => Ok(crate::tags::spec_sample_format_from(v)),
            None => Ok(None),
        },
        Err(em) => Err(em),
    }
}

/// A tag looked up and coerced to a resolution unit.
pub open spec fn spec_resolution_unit_tag(d: Seq<u8>, entries: Seq<IfdEntry>, e: Endian) -> Result<
    Option<crate::tags::ResolutionUnit>,
    ErrorModel,
> {
    match spec_u32_tag(d, entries, crate::tags::RESOLUTION_UNIT, e) {
        Ok(opt) => match opt {
            Some(v) => Ok(crate::tags::spec_resolution_unit_from(v)),
            None => Ok(None),
        },
        Err(em) => Err(em),
    }
}

/// Whether the directory declares a tiled layout: a tile-width tag that
/// coerces to a number is present.
pub open spec fn spec_is_tiled(d: Seq<u8>, entries: Seq<IfdEntry>, e: Endian) -> Result<
    bool,
    ErrorModel,
> {
    match spec_u32_tag(d, entries, crate::tags::TILE_WIDTH, e) {
        Ok(opt) => Ok(opt is Some),
        Err(em) => Err(em),
    }
}

/// Whether an executable text result agrees with its specification-level
/// counterpart.
pub open spec fn string_result_matches(
    r: Result<Option<String>, TiffError>,
    s: Result<Option<Seq<char>>, ErrorModel>,
) -> bool {
    match r {
        Ok(opt) => match opt {
            Some(v) => s == Ok::<Option<Seq<char>>, ErrorModel>(Some(v@)),
            None => s == Ok::<Option<Seq<char>>, ErrorModel>(None),
        },
        Err(er) => s == Err::<Option<Seq<char>>, ErrorModel>(er@),
    }
}

/// Whether the directory holds the tags every valid image needs: width,
/// height, and one complete data-layout scheme (strips or tiles).
pub open spec fn spec_is_valid_tiff(d: Seq<u8>, entries: Seq<IfdEntry>, e: Endian) -> Result<
    bool,
    ErrorModel,
> {
    match spec_u32_tag(d, entries, crate::tags::IMAGE_WIDTH, e) {
        Err(em) => Err(em),
        Ok(w) => match spec_u32_tag(d, entries, crate::tags::IMAGE_LENGTH, e) {
            Err(em) => Err(em),
            Ok(h) => match spec_u32_seq_tag(d, entries, crate::tags::STRIP_OFFSETS, e) {
                Err(em) => Err(em),
                Ok(so) => match spec_u32_seq_tag(d, entries, crate::tags::STRIP_BYTE_COUNTS, e) {
                    Err(em) => Err(em),
                    Ok(sc) => match spec_u32_seq_tag(d, entries, crate::tags::TILE_OFFSETS, e) {
                        Err(em) => Err(em),
                        Ok(to) => match spec_u32_seq_tag(
                            d,
                            entries,
                            crate::tags::TILE_BYTE_COUNTS,
                            e,
                        ) {
                            Err(em) => Err(em),
                            Ok(tc) => Ok(
                                w is Some && h is Some && ((so is Some && sc is Some) || (to is Some
                                    && tc is Some)),
                            ),
                        },
                    },
                },
            },
        },
    }
}

/// Summary of image information extracted from an IFD
///
/// This provides a convenient overview of the key image properties
/// without having to call multiple methods.
#[derive(Debug, Clone)]
pub struct ImageSummary {
    /// Image width in pixels
    pub width: u32,
    /// Image height in pixels
    pub height: u32,
    /// Number of samples (channels) per pixel
    pub samples_per_pixel: u32,
    /// Bits per sample for each channel
    pub bits_per_sample: Vec<u32>,
    /// Compression method used
    pub compression: crate::tags::Compression,
    /// Color interpretation
    pub photometric_interpretation: Option<crate::tags::PhotometricInterpretation>,
    /// Whether the image uses tiled layout
    pub is_tiled: bool,
}

/// Mathematical model of an [`ImageSummary`].
pub struct ImageSummaryModel {
    /// Image width in pixels
    pub width: u32,
    /// Image height in pixels
    pub height: u32,
    /// Number of samples (channels) per pixel
    pub samples_per_pixel: u32,
    /// Bits per sample for each channel
    pub bits_per_sample: Seq<u32>,
    /// Compression method used
    pub compression: crate::tags::Compression,
    /// Color interpretation
    pub photometric_interpretation: Option<crate::tags::PhotometricInterpretation>,
    /// Whether the image uses tiled layout
    pub is_tiled: bool,
}

impl View for ImageSummary {
    type V = ImageSummaryModel;

    open spec fn view(&self) -> ImageSummaryModel {
        ImageSummaryModel {
            width: self.width,
            height: self.height,
            samples_per_pixel: self.samples_per_pixel,
            bits_per_sample: self.bits_per_sample@,
            compression: self.compression,
            photometric_interpretation: self.photometric_interpretation,
            is_tiled: self.is_tiled,
        }
    }
}

/// The sum of a sequence of bit depths.
pub open spec fn spec_sum_u32(s: Seq<u32>) -> int
    decreases s.len(),
{
    if s.len() == 0 {
        0
    } else {
        spec_sum_u32(s.drop_last()) + s.last()
    }
}

proof fn lemma_sum_prefix(s: Seq<u32>, i: int)
    requires
        0 <= i <= s.len(),
    ensures
        spec_sum_u32(s.subrange(0, i)) <= spec_sum_u32(s),
    decreases s.len() - i,
{
    if i == s.len() {
        assert(s.subrange(0, i) =~= s);
    } else {
        assert(s.subrange(0, i + 1).drop_last() =~= s.subrange(0, i));
        assert(s.subrange(0, i + 1).last() == s[i]);
        lemma_sum_prefix(s, i + 1);
    }
}

/// Whether a summary describes a grayscale image.
pub open spec fn spec_is_grayscale(m: ImageSummaryModel) -> bool {
    m.samples_per_pixel == 1 || m.photometric_interpretation == Some(
        crate::tags::PhotometricInterpretation::BlackIsZero,
    ) || m.photometric_interpretation == Some(
        crate::tags::PhotometricInterpretation::WhiteIsZero,
    )
}

/// Whether a summary describes an RGB image.
pub open spec fn spec_is_rgb(m: ImageSummaryModel) -> bool {
    m.samples_per_pixel >= 3 && m.photometric_interpretation == Some(
        crate::tags::PhotometricInterpretation::Rgb,
    )
}

/// Whether a summary describes an image with an alpha channel.
pub open spec fn spec_has_alpha(m: ImageSummaryModel) -> bool {
    (m.samples_per_pixel == 2 && spec_is_grayscale(m)) || (m.samples_per_pixel == 4 && spec_is_rgb(
        m,
    ))
}

impl ImageSummary {
    /// Calculate total bits per pixel
    pub fn bits_per_pixel(&self) -> (r: u32)
        requires
            spec_sum_u32(self.bits_per_sample@) <= u32::MAX,
        ensures
            r == spec_sum_u32(self.bits_per_sample@),
    {
        let ghost s = self.bits_per_sample@;
        let mut sum: u32 = 0;
        let mut i: usize = 0;
        while i < self.bits_per_sample.len()
            invariant
                i <= s.len(),
                s == self.bits_per_sample@,
                spec_sum_u32(s) <= u32::MAX,
                sum == spec_sum_u32(s.subrange(0, i as int)),
            decreases s.len() - i,
        {
            proof {
                assert(s.subrange(0, i + 1).drop_last() =~= s.subrange(0, i as int));
                assert(s.subrange(0, i + 1).last() == s[i as int]);
                lemma_sum_prefix(s, i + 1);
            }
            sum = sum + self.bits_per_sample[i];
            i = i + 1;
        }
        proof {
            assert(s.subrange(0, s.len() as int) =~= s);
        }
        sum
    }

    /// Calculate bytes per pixel (rounded up)
    pub fn bytes_per_pixel(&self) -> (r: u32)
        requires
            spec_sum_u32(self.bits_per_sample@) + 7 <= u32::MAX,
        ensures
            r == (spec_sum_u32(self.bits_per_sample@) + 7) / 8,
    {
        (self.bits_per_pixel() + 7) / 8
    }

    /// Check if this is a grayscale image
    pub fn is_grayscale(&self) -> (r: bool)
        ensures
            r == spec_is_grayscale(self@),
    {
        self.samples_per_pixel == 1 || matches!(
            self.photometric_interpretation,
            Some(crate::tags::PhotometricInterpretation::BlackIsZero)
            | Some(crate::tags::PhotometricInterpretation::WhiteIsZero)
        )
    }

    /// Check if this is an RGB image
    pub fn is_rgb(&self) -> (r: bool)
        ensures
            r == spec_is_rgb(self@),
    {
        self.samples_per_pixel >= 3 && matches!(
            self.photometric_interpretation,
            Some(crate::tags::PhotometricInterpretation::Rgb)
        )
    }

    /// Check if this image has an alpha channel
    pub fn has_alpha(&self) -> (r: bool)
        ensures
            r == spec_has_alpha(self@),
    {
        self.samples_per_pixel == 2 && self.is_grayscale() || self.samples_per_pixel == 4
            && self.is_rgb()
    }

    /// Get a human-readable description
    pub fn description(&self) -> (s: String)
        requires
            spec_sum_u32(self.bits_per_sample@) <= u32::MAX,
        ensures
            s@ == spec_description(self@),
    {
        let color_desc: &str = match self.photometric_interpretation {
            Some(crate::tags::PhotometricInterpretation::Rgb) => if self.has_alpha() {
                "RGBA"
            } else {
                "RGB"
            },
            Some(crate::tags::PhotometricInterpretation::BlackIsZero)
            | Some(crate::tags::PhotometricInterpretation::WhiteIsZero) => if self.has_alpha() {
                "Grayscale+Alpha"
            } else {
                "Grayscale"
            },
            Some(crate::tags::PhotometricInterpretation::Palette) => "Palette",
            Some(crate::tags::PhotometricInterpretation::Cmyk) => "CMYK",
            _ => "Unknown",
        };
        let layout: &str = if self.is_tiled {
            "tiled"
        } else {
            "stripped"
        };
        let mut s = crate::decimal::u32_to_dec(self.width);
        s.append("x");
        let height_dec = crate::decimal::u32_to_dec(self.height);
        s.append(height_dec.as_str());
        s.append(" ");
        s.append(color_desc);
        s.append(" ");
        let bits_dec = crate::decimal::u32_to_dec(self.bits_per_pixel());
        s.append(bits_dec.as_str());
        s.append("-bit ");
        s.append(layout);
        s.append(" (");
        s.append(compression_name(self.compression));
        s.append(")");
        s
    }
}

/// The wording used for each color interpretation in a summary description.
pub open spec fn spec_color_desc(m: ImageSummaryModel) -> Seq<char> {
    match m.photometric_interpretation {
        Some(crate::tags::PhotometricInterpretation::Rgb) => if spec_has_alpha(m) {
            "RGBA"@
        } else {
            "RGB"@
        },
        Some(crate::tags::PhotometricInterpretation::BlackIsZero) => if spec_has_alpha(m) {
            "Grayscale+Alpha"@
        } else {
            "Grayscale"@
        },
        Some(crate::tags::PhotometricInterpretation::WhiteIsZero) => if spec_has_alpha(m) {
            "Grayscale+Alpha"@
        } else {
            "Grayscale"@
        },
        Some(crate::tags::PhotometricInterpretation::Palette) => "Palette"@,
        Some(crate::tags::PhotometricInterpretation::Cmyk) => "CMYK"@,
        _ => "Unknown"@,
    }
}

/// The wording used for each data layout in a summary description.
pub open spec fn spec_layout_desc(m: ImageSummaryModel) -> Seq<char> {
    if m.is_tiled {
        "tiled"@
    } else {
        "stripped"@
    }
}

/// The wording used for each compression scheme in a summary description.
pub open spec fn spec_compression_name(c: crate::tags::Compression) -> Seq<char> {
    match c {
        crate::tags::Compression::Uncompressed => "None"@,
        crate::tags::Compression::Ccitt1d => "Ccitt1d"@,
        crate::tags::Compression::Group3Fax => "Group3Fax"@,
        crate::tags::Compression::Group4Fax => "Group4Fax"@,
        crate::tags::Compression::Lzw => "Lzw"@,
        crate::tags::Compression::JpegOld => "JpegOld"@,
        crate::tags::Compression::Jpeg => "Jpeg"@,
        crate::tags::Compression::Deflate => "Deflate"@,
        crate::tags::Compression::AdobeDeflate => "AdobeDeflate"@,
        crate::tags::Compression::PackBits => "PackBits"@,
    }
}

/// The one-line description of a summary: dimensions, color, bit depth,
/// layout and compression.
pub open spec fn spec_description(m: ImageSummaryModel) -> Seq<char> {
    spec_dec(m.width as int) + "x"@ + spec_dec(m.height as int) + " "@ + spec_color_desc(m) + " "@
        + spec_dec(spec_sum_u32(m.bits_per_sample)) + "-bit "@ + spec_layout_desc(m) + " ("@
        + spec_compression_name(m.compression) + ")"@
}

/// The name used for a compression scheme in descriptions.
fn compression_name(c: crate::tags::Compression) -> (r: &'static str)
    ensures
        r@ == spec_compression_name(c),
{
    match c {
        crate::tags::Compression::Uncompressed => "None",
        crate::tags::Compression::Ccitt1d => "Ccitt1d",
        crate::tags::Compression::Group3Fax => "Group3Fax",
        crate::tags::Compression::Group4Fax => "Group4Fax",
        crate::tags::Compression::Lzw => "Lzw",
        crate::tags::Compression::JpegOld => "JpegOld",
        crate::tags::Compression::Jpeg => "Jpeg",
        crate::tags::Compression::Deflate => "Deflate",
        crate::tags::Compression::AdobeDeflate => "AdobeDeflate",
        crate::tags::Compression::PackBits => "PackBits",
    }
}

/// The summary a directory yields: each field from its tag where present,
/// with the format's defaults where absent, or the first error met reading
/// the tags in order.
#[verifier::opaque]
pub open spec fn spec_image_summary(d: Seq<u8>, entries: Seq<IfdEntry>, e: Endian) -> Result<
    ImageSummaryModel,
    ErrorModel,
> {
    match spec_u32_tag(d, entries, crate::tags::IMAGE_WIDTH, e) {
        Err(em) => Err(em),
        Ok(wo) => match spec_u32_tag(d, entries, crate::tags::IMAGE_LENGTH, e) {
            Err(em) => Err(em),
            Ok(ho) => match spec_u32_tag(d, entries, crate::tags::SAMPLES_PER_PIXEL, e) {
                Err(em) => Err(em),
                Ok(so) => {
                    let samples = match so {
                        Some(s) => s,
                        None => 1u32,
                    };
                    match spec_u32_seq_tag(d, entries, crate::tags::BITS_PER_SAMPLE, e) {
                        Err(em) => Err(em),
                        Ok(bo) => match spec_compression_tag(d, entries, e) {
                            Err(em) => Err(em),
                            Ok(co) => match spec_photometric_tag(d, entries, e) {
                                Err(em) => Err(em),
                                Ok(po) => match spec_is_tiled(d, entries, e) {
                                    Err(em) => Err(em),
                                    Ok(tiled) => Ok(
                                        ImageSummaryModel {
                                            width: match wo {
                                                Some(w) => w,
                                                None => 0u32,
                                            },
                                            height: match ho {
                                                Some(h) => h,
                                                None => 0u32,
                                            },
                                            samples_per_pixel: samples,
                                            bits_per_sample: match bo {
                                                Some(b) => b,
                                                None => Seq::new(
                                                    samples as nat,
                                                    |i: int| 1u32,
                                                ),
                                            },
                                            compression: match co {
                                                Some(c) => c,
                                                None => crate::tags::Compression::Uncompressed,
                                            },
                                            photometric_interpretation: po,
                                            is_tiled: tiled,
                                        },
                                    ),
                                },
                            },
                        },
                    }
                },
            },
        },
    }
}

/// Directory-level extension methods for TiffReader
impl<T: TiffDataSource> TiffReader<T> {
    /// Read an IFD (Image File Directory) at the given offset
    ///
    /// # Arguments
    /// * `offset` - Byte offset where the IFD starts
    /// * `endian` - Byte order to use for reading
    ///
    /// # Returns
    /// Parsed IFD with all entries and next IFD offset; succeeds exactly when
    /// the whole directory lies within the data.
    #[verifier::loop_isolation(false)]
    pub fn read_ifd(&mut self, offset: usize, endian: Endian) -> (r: Result<
        ImageFileDirectory,
        TiffError,
    >)
        ensures
            final(self).spec_contents() == old(self).spec_contents(),
            ({
                let d = old(self).spec_contents();
                match r {
                    Ok(ifd) => {
                        &&& spec_ifd_fits(d, offset as int, endian)
                        &&& ifd@ == spec_ifd_at(d, offset as int, endian)
                        &&& final(self).spec_position() == offset + 6 + 12 * u16_at(
                            d,
                            offset as int,
                            endian,
                        )
                    },
                    Err(er) => {
                        &&& !spec_ifd_fits(d, offset as int, endian)
                        &&& er@ == spec_ifd_err(d, offset as int, endian)
                        &&& final(self).spec_position() == spec_ifd_err_pos(
                            d,
                            offset as int,
                            endian,
                            old(self).spec_position(),
                        )
                    },
                }
            }),
    {
        let ghost d = self.spec_contents();
        match self.seek(offset) {
            Ok(()) => (),
            Err(er) => {
                return Err(er);
            },
        }
        let num_entries = match self.read_u16(endian) {
            Ok(v) => v,
            Err(er) => {
                return Err(er);
            },
        };
        let ghost n = u16_at(d, offset as int, endian);
        let n_us = num_entries as usize;
        let mut entries: Vec<IfdEntry> = Vec::new();
        let mut i: usize = 0;
        while i < n_us
            invariant
                i <= n_us,
                self.spec_contents() == d,
                self.spec_position() == offset + 2 + 12 * i,
                offset + 2 + 12 * i <= d.len(),
                entries@.len() == i,
                forall|j: int|
                    0 <= j < i ==> entries@[j] == spec_entry_at(d, offset + 2 + 12 * j, endian),
            decreases n_us - i,
        {
            match self.read_ifd_entry(endian) {
                Ok(en) => {
                    entries.push(en);
                    i = i + 1;
                },
                Err(er) => {
                    proof {
                        crate::reader::lemma_whole_elems_stop(
                            d.len() as int,
                            offset as int + 2,
                            12,
                            n,
                            i as int,
                        );
                    }
                    return Err(er);
                },
            }
        }
        let next_offset = match self.read_u32(endian) {
            Ok(v) => v,
            Err(er) => {
                proof {
                    crate::reader::lemma_whole_elems_all(d.len() as int, offset as int + 2, 12, n);
                }
                return Err(er);
            },
        };
        let ifd = ImageFileDirectory { entries, next_ifd_offset: next_offset as usize };
        proof {
            assert(ifd@.entries =~= spec_ifd_at(d, offset as int, endian).entries);
        }
        Ok(ifd)
    }

    /// Read a single IFD entry (12 bytes)
    fn read_ifd_entry(&mut self, endian: Endian) -> (r: Result<IfdEntry, TiffError>)
        ensures
            final(self).spec_contents() == old(self).spec_contents(),
            ({
                let d = old(self).spec_contents();
                let p = old(self).spec_position();
                match r {
                    Ok(en) => {
                        &&& p + 12 <= d.len()
                        &&& en == spec_entry_at(d, p, endian)
                        &&& final(self).spec_position() == p + 12
                    },
                    Err(er) => {
                        &&& p + 12 > d.len()
                        &&& final(self).spec_position() == p + entry_ok_bytes(d.len() as int, p)
                        &&& er@ == (ErrorModel::OutOfBounds {
                            index: sat_index(entry_fail_index(d.len() as int, p)),
                            max: d.len() as int,
                        })
                    },
                }
            }),
    {
        let tag = match self.read_u16(endian) {
            Ok(v) => v,
            Err(er) => {
                return Err(er);
            },
        };
        let field_type = match self.read_u16(endian) {
            Ok(v) => v,
            Err(er) => {
                return Err(er);
            },
        };
        let count = match self.read_u32(endian) {
            Ok(v) => v,
            Err(er) => {
                return Err(er);
            },
        };
        let value_offset = match self.read_u32(endian) {
            Ok(v) => v,
            Err(er) => {
                return Err(er);
            },
        };
        Ok(IfdEntry { tag, field_type, count, value_offset })
    }
}

/// The first entry with the given tag, if any. Duplicate tags are allowed
/// by the format; lookup always returns the first match in file order.
pub open spec fn spec_find_entry(entries: Seq<IfdEntry>, tag: u16) -> Option<IfdEntry>
    decreases entries.len(),
{
    if entries.len() == 0 {
        None
    } else if entries[0].tag == tag {
        Some(entries[0])
    } else {
        spec_find_entry(entries.drop_first(), tag)
    }
}

proof fn lemma_find_entry_at(entries: Seq<IfdEntry>, tag: u16, i: int)
    requires
        0 <= i < entries.len(),
        entries[i].tag == tag,
        forall|j: int| 0 <= j < i ==> entries[j].tag != tag,
    ensures
        spec_find_entry(entries, tag) == Some(entries[i]),
    decreases i,
{
    if i > 0 {
        lemma_find_entry_at(entries.drop_first(), tag, i - 1);
    }
}

proof fn lemma_find_entry_none(entries: Seq<IfdEntry>, tag: u16)
    requires
        forall|j: int| 0 <= j < entries.len() ==> entries[j].tag != tag,
    ensures
        spec_find_entry(entries, tag) == None::<IfdEntry>,
    decreases entries.len(),
{
    if entries.len() > 0 {
        lemma_find_entry_none(entries.drop_first(), tag);
    }
}

/// Looking a tag up in a directory and decoding it: no entry yields
/// `Ok(None)`, a decodable first entry yields its value, and a first entry
/// that fails to decode yields its error.
pub open spec fn spec_lookup(d: Seq<u8>, entries: Seq<IfdEntry>, tag: u16, e: Endian) -> Result<
    Option<TagValueModel>,
    ErrorModel,
> {
    match spec_find_entry(entries, tag) {
        None => Ok(None),
        Some(en) => match spec_tag_value(d, en, e) {
            Ok(m) => Ok(Some(m)),
            Err(em) => Err(em),
        },
    }
}

/// A tag looked up and coerced to a single `u32`.
pub open spec fn spec_u32_tag(d: Seq<u8>, entries: Seq<IfdEntry>, tag: u16, e: Endian) -> Result<
    Option<u32>,
    ErrorModel,
> {
    match spec_lookup(d, entries, tag, e) {
        Ok(opt) => match opt {
            Some(m) => Ok(spec_as_u32(m)),
            None => Ok(None),
        },
        Err(em) => Err(em),
    }
}

/// A tag looked up and coerced to a vector of `u32`.
pub open spec fn spec_u32_seq_tag(d: Seq<u8>, entries: Seq<IfdEntry>, tag: u16, e: Endian) -> Result<
    Option<Seq<u32>>,
    ErrorModel,
> {
    match spec_lookup(d, entries, tag, e) {
        Ok(opt) => match opt {
            Some(m) => Ok(spec_as_u32_seq(m)),
            None => Ok(None),
        },
        Err(em) => Err(em),
    }
}

/// A tag looked up and coerced to text.
pub open spec fn spec_string_tag(d: Seq<u8>, entries: Seq<IfdEntry>, tag: u16, e: Endian) -> Result<
    Option<Seq<char>>,
    ErrorModel,
> {
    match spec_lookup(d, entries, tag, e) {
        Ok(opt) => match opt {
            Some(m) => match m {
                TagValueModel::Ascii(cs) => Ok(Some(cs)),
                _ => Ok(None),
            },
            None => Ok(None),
        },
        Err(em) => Err(em),
    }
}

/// A tag looked up and coerced to an unsigned rational with a nonzero
/// denominator.
pub open spec fn spec_rational_tag(d: Seq<u8>, entries: Seq<IfdEntry>, tag: u16, e: Endian) -> Result<
    Option<(u32, u32)>,
    ErrorModel,
> {
    match spec_lookup(d, entries, tag, e) {
        Ok(opt) => match opt {
            Some(m) => Ok(spec_as_rational(m)),
            None => Ok(None),
        },
        Err(em) => Err(em),
    }
}

/// How many whole elements of `size` bytes to decode from a payload of
/// `len` bytes when `count` elements were declared.
fn elem_limit(count: u32, len: usize, size: usize) -> (n: usize)
    requires
        size == 2 || size == 4 || size == 8,
    ensures
        n == whole_elems(len as int, 0, size as int, count as int),
        size * n <= len,
{
    let avail = len / size;
    let count_us = count as usize;
    let n = if count_us <= avail {
        count_us
    } else {
        avail
    };
    proof {
        vstd::arithmetic::div_mod::lemma_fundamental_div_mod(len as int, size as int);
        assert(size as int * (len as int / size as int) <= len as int);
        assert(size as int * n <= size as int * (len as int / size as int))
            by (nonlinear_arith)
            requires
                size as int > 0,
                n <= len as int / size as int,
        ;
    }
    n
}

/// Inline rule for a four-byte payload: an entry declaring type Long with
/// count 1 decodes to exactly its value slot, whatever the data holds.
pub proof fn lemma_long_inline_rule(d: Seq<u8>, en: IfdEntry, e: Endian)
    requires
        spec_field_type(en.field_type) == Some(FieldType::Long),
        en.count == 1,
    ensures
        spec_tag_value(d, en, e) == Ok::<TagValueModel, ErrorModel>(
            TagValueModel::Longs(seq![en.value_offset]),
        ),
{
    let slot = slot_bytes(e, en.value_offset);
    let payload = slot.subrange(0, 4);
    assert(payload =~= slot);
    crate::header::lemma_u32_bytes_value(e, en.value_offset);
    assert(u32_at(payload, 0, e) == en.value_offset);
    assert(whole_elems(4, 0, 4, 1) == 1);
    assert(Seq::new(1, |i: int| u32_at(payload, 4 * i, e) as u32) =~= seq![en.value_offset]);
}

/// Offset rule for an eight-byte payload: an entry declaring type Long
/// with count 2 treats its value slot as a byte offset and decodes the two
/// values stored there, provided they lie within the data.
pub proof fn lemma_long_offset_rule(d: Seq<u8>, en: IfdEntry, e: Endian)
    requires
        spec_field_type(en.field_type) == Some(FieldType::Long),
        en.count == 2,
        en.value_offset + 8 <= d.len(),
    ensures
        spec_tag_value(d, en, e) == Ok::<TagValueModel, ErrorModel>(
            TagValueModel::Longs(
                seq![
                    u32_at(d, en.value_offset as int, e) as u32,
                    u32_at(d, en.value_offset + 4, e) as u32,
                ],
            ),
        ),
{
    let off = en.value_offset as int;
    let payload = d.subrange(off, off + 8);
    assert(whole_elems(8, 0, 4, 2) == 2);
    assert(u32_at(payload, 0, e) == u32_at(d, off, e));
    assert(u32_at(payload, 4, e) == u32_at(d, off + 4, e));
    assert(Seq::new(2, |i: int| u32_at(payload, 4 * i, e) as u32) =~= seq![
        u32_at(d, off, e) as u32,
        u32_at(d, off + 4, e) as u32,
    ]);
}

/// A text payload that does not end in a null byte decodes using all its
/// bytes as text: nothing is stripped.
pub proof fn lemma_ascii_without_null(payload: Seq<u8>, count: int, e: Endian)
    requires
        payload.len() == 0 || payload[payload.len() - 1] != 0,
    ensures
        spec_decode(payload, FieldType::Ascii, count, e) == (match utf8_decode(payload) {
            Some(cs) => Some(TagValueModel::Ascii(cs)),
            None => None::<TagValueModel>,
        }),
{
    assert(spec_stripped(payload) == payload);
}

/// A text payload whose bytes (after stripping one trailing null) are not
/// valid UTF-8 does not decode to a value.
pub proof fn lemma_ascii_invalid_text(payload: Seq<u8>, count: int, e: Endian)
    requires
        utf8_decode(spec_stripped(payload)) == None::<Seq<char>>,
    ensures
        spec_decode(payload, FieldType::Ascii, count, e) == None::<TagValueModel>,
{
}

/// A rational pair whose denominator is zero yields no value from the
/// rational coercions: a caller is never handed a ratio it would have to
/// divide by zero to evaluate.
pub proof fn lemma_zero_denominator_yields_none(m: TagValueModel)
    ensures
        (m matches TagValueModel::Rationals(v) && v.len() > 0 && v[0].1 == 0)
            ==> spec_as_rational(m) == None::<(u32, u32)>,
        (m matches TagValueModel::SRationals(v) && v.len() > 0 && v[0].1 == 0)
            ==> spec_as_srational(m) == None::<(i32, i32)>,
{
}

} // verus!
