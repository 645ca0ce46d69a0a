//! TIFF file reading utilities with pluggable data sources.
//!
//! The reading layer is split in two: [`TiffDataSource`] abstracts where the
//! bytes come from (its mathematical model is simply the byte sequence it
//! holds), and [`TiffReader`] layers a cursor and fixed-width reads on top.
//! Every read is bounds-checked against the model; nothing here panics.

use crate::error::{ErrorModel, TiffError};
use crate::header::{spec_parse_header, u16_at, u32_at, Endian, TiffHeader};
use crate::text::{string_from_utf8, utf8_decode};
use vstd::prelude::*;
use vstd::string::StringExecFns;

verus! {

/// An attempted end index, clipped to what a `usize` can hold.
///
/// Error values carry the index of the first byte past the attempted read;
/// when that index does not fit in a `usize` the stored value saturates.
pub open spec fn sat_index(i: int) -> int {
    if i > usize::MAX {
        usize::MAX as int
    } else {
        i
    }
}

/// How many whole elements of `size` bytes fit between `pos` and `len`,
/// capped at the `count` that was asked for.
pub open spec fn whole_elems(len: int, pos: int, size: int, count: int) -> int {
    let avail = if pos <= len {
        (len - pos) / size
    } else {
        0
    };
    if count <= avail {
        count
    } else {
        avail
    }
}

/// The index of the first zero byte of `s`, if any.
pub open spec fn first_zero(s: Seq<u8>) -> Option<int>
    decreases s.len(),
{
    if s.len() == 0 {
        None
    } else if s[0] == 0 {
        Some(0)
    } else {
        match first_zero(s.drop_first()) {
            Some(k) => Some(k + 1),
            None => None,
        }
    }
}

proof fn lemma_first_zero_at(s: Seq<u8>, k: int)
    requires
        0 <= k < s.len(),
        s[k] == 0,
        forall|j: int| 0 <= j < k ==> s[j] != 0,
    ensures
        first_zero(s) == Some(k),
    decreases k,
{
    if k > 0 {
        lemma_first_zero_at(s.drop_first(), k - 1);
    }
}

proof fn lemma_first_zero_none(s: Seq<u8>)
    requires
        forall|j: int| 0 <= j < s.len() ==> s[j] != 0,
    ensures
        first_zero(s) == None::<int>,
    decreases s.len(),
{
    if s.len() > 0 {
        lemma_first_zero_none(s.drop_first());
    }
}

/// If `i` whole elements were read and the next one does not fit, then `i`
/// is exactly the number of whole elements available.
pub(crate) proof fn lemma_whole_elems_stop(len: int, pos: int, size: int, count: int, i: int)
    requires
        size > 0,
        0 <= i < count,
        i > 0 ==> pos >= 0 && pos + size * i <= len,
        pos + size * i + size > len,
    ensures
        whole_elems(len, pos, size, count) == i,
{
    if i == 0 {
        if pos <= len {
            vstd::arithmetic::div_mod::lemma_basic_div(len - pos, size);
        }
    } else {
        vstd::arithmetic::div_mod::lemma_fundamental_div_mod_converse(
            len - pos,
            size,
            i,
            len - pos - size * i,
        );
    }
}

/// If all `count` elements fit, none of them is dropped.
pub(crate) proof fn lemma_whole_elems_all(len: int, pos: int, size: int, count: int)
    requires
        size > 0,
        0 <= count,
        0 <= pos,
        pos + size * count <= len,
    ensures
        whole_elems(len, pos, size, count) == count,
{
    vstd::arithmetic::div_mod::lemma_div_is_ordered(size * count, len - pos, size);
    vstd::arithmetic::div_mod::lemma_div_multiples_vanish(count, size);
}

/// Trait for TIFF data sources - abstracts where the data comes from
///
/// This allows [`TiffReader`] to work with in-memory data, memory-mapped
/// files, or any other random-access backing store. A source is modelled by
/// the byte sequence [`contents`](TiffDataSource::contents); all methods are
/// stateless and leave the source unchanged.
pub trait TiffDataSource {
    /// The byte sequence this source holds.
    spec fn contents(&self) -> Seq<u8>;

    /// A source never holds more bytes than a `usize` can count.
    proof fn contents_len_bounded(&self)
        ensures
            self.contents().len() <= usize::MAX,
    ;

    /// Get the total size of the data source
    fn len(&self) -> (n: usize)
        ensures
            n == self.contents().len(),
    ;

    /// Check if the data source is empty
    fn is_empty(&self) -> (b: bool)
        ensures
            b == (self.contents().len() == 0),
    {
        self.len() == 0
    }

    /// Read `count` bytes starting at `offset`.
    ///
    /// Succeeds exactly when `offset + count` fits within the data, returning
    /// that byte range; otherwise fails with `OutOfBounds` carrying the
    /// attempted end index and the source length.
    fn read_bytes_at(&self, offset: usize, count: usize) -> (r: Result<Vec<u8>, TiffError>)
        ensures
            match r {
                Ok(v) => {
                    &&& offset + count <= self.contents().len()
                    &&& v@ == self.contents().subrange(offset as int, offset + count)
                },
                Err(er) => {
                    &&& offset + count > self.contents().len()
                    &&& er@ == (ErrorModel::OutOfBounds {
                        index: sat_index(offset + count),
                        max: self.contents().len() as int,
                    })
                },
            },
    ;

    /// Read a single byte at a specific offset
    ///
    /// Default implementation uses read_bytes_at, but data sources can optimize this
    fn read_u8_at(&self, offset: usize) -> (r: Result<u8, TiffError>)
        ensures
            match r {
                Ok(b) => offset + 1 <= self.contents().len() && b == self.contents()[
                    offset as int
                ],
                Err(er) => {
                    &&& offset + 1 > self.contents().len()
                    &&& er@ == (ErrorModel::OutOfBounds {
                        index: sat_index(offset + 1),
                        max: self.contents().len() as int,
                    })
                },
            },
    {
        let bytes = match self.read_bytes_at(offset, 1) {
            Ok(v) => v,
            Err(er) => {
                return Err(er);
            },
        };
        Ok(bytes[0])
    }

    /// Read a u16 at a specific offset with given endianness
    ///
    /// Default implementation uses read_bytes_at, but data sources can optimize this
    fn read_u16_at(&self, offset: usize, endian: Endian) -> (r: Result<u16, TiffError>)
        ensures
            match r {
                Ok(v) => offset + 2 <= self.contents().len() && v == u16_at(
                    self.contents(),
                    offset as int,
                    endian,
                ),
                Err(er) => {
                    &&& offset + 2 > self.contents().len()
                    &&& er@ == (ErrorModel::OutOfBounds {
                        index: sat_index(offset + 2),
                        max: self.contents().len() as int,
                    })
                },
            },
    {
        let bytes = match self.read_bytes_at(offset, 2) {
            Ok(v) => v,
            Err(er) => {
                return Err(er);
            },
        };
        Ok(endian.read_u16([bytes[0], bytes[1]]))
    }

    /// Read a u32 at a specific offset with given endianness
    ///
    /// Default implementation uses read_bytes_at, but data sources can optimize this
    fn read_u32_at(&self, offset: usize, endian: Endian) -> (r: Result<u32, TiffError>)
        ensures
            match r {
                Ok(v) => offset + 4 <= self.contents().len() && v == u32_at(
                    self.contents(),
                    offset as int,
                    endian,
                ),
                Err(er) => {
                    &&& offset + 4 > self.contents().len()
                    &&& er@ == (ErrorModel::OutOfBounds {
                        index: sat_index(offset + 4),
                        max: self.contents().len() as int,
                    })
                },
            },
    {
        let bytes = match self.read_bytes_at(offset, 4) {
            Ok(v) => v,
            Err(er) => {
                return Err(er);
            },
        };
        Ok(endian.read_u32([bytes[0], bytes[1], bytes[2], bytes[3]]))
    }
}

/// In-memory data source - holds data in a `Vec<u8>`
///
/// This is the simplest data source, suitable for small to medium files
/// that can fit entirely in memory.
#[derive(Debug, Clone)]
pub struct InMemorySource {
    data: Vec<u8>,
}

impl InMemorySource {
    /// Create a new in-memory source from a vector of bytes
    pub fn new(data: Vec<u8>) -> (s: Self)
        ensures
            s.contents() == data@,
    {
        Self { data }
    }

    /// Create from a byte slice (copies the data)
    pub fn from_slice(data: &[u8]) -> (s: Self)
        ensures
            s.contents() == data@,
    {
        Self::new(vstd::slice::slice_to_vec(data))
    }

    /// Get a reference to the underlying data
    pub fn as_slice(&self) -> (r: &[u8])
        ensures
            r@ == self.contents(),
    {
        self.data.as_slice()
    }
}

impl TiffDataSource for InMemorySource {
    closed spec fn contents(&self) -> Seq<u8> {
        self.data@
    }

    proof fn contents_len_bounded(&self) {
        vstd::std_specs::vec::axiom_spec_len(&self.data);
    }

    fn len(&self) -> (n: usize) {
        self.data.len()
    }

    fn read_bytes_at(&self, offset: usize, count: usize) -> (r: Result<Vec<u8>, TiffError>) {
        let max = self.data.len();
        match offset.checked_add(count) {
            None => Err(TiffError::OutOfBounds { index: usize::MAX, max }),
            Some(end) => {
                if end > max {
                    Err(TiffError::OutOfBounds { index: end, max })
                } else {
                    let slice = vstd::slice::slice_subrange(self.data.as_slice(), offset, end);
                    Ok(vstd::slice::slice_to_vec(slice))
                }
            },
        }
    }

    // Optimized implementations for primitives (avoid allocation where possible)
    fn read_u8_at(&self, offset: usize) -> (r: Result<u8, TiffError>) {
        let max = self.data.len();
        if offset == usize::MAX {
            return Err(TiffError::OutOfBounds { index: usize::MAX, max });
        }
        if offset + 1 > max {
            return Err(TiffError::OutOfBounds { index: offset + 1, max });
        }
        Ok(self.data[offset])
    }

    fn read_u16_at(&self, offset: usize, endian: Endian) -> (r: Result<u16, TiffError>) {
        let max = self.data.len();
        if offset > usize::MAX - 2 {
            return Err(TiffError::OutOfBounds { index: usize::MAX, max });
        }
        if offset + 2 > max {
            return Err(TiffError::OutOfBounds { index: offset + 2, max });
        }
        let bytes = [self.data[offset], self.data[offset + 1]];
        Ok(endian.read_u16(bytes))
    }

    fn read_u32_at(&self, offset: usize, endian: Endian) -> (r: Result<u32, TiffError>) {
        let max = self.data.len();
        if offset > usize::MAX - 4 {
            return Err(TiffError::OutOfBounds { index: usize::MAX, max });
        }
        if offset + 4 > max {
            return Err(TiffError::OutOfBounds { index: offset + 4, max });
        }
        let bytes = [
            self.data[offset],
            self.data[offset + 1],
            self.data[offset + 2],
            self.data[offset + 3],
        ];
        Ok(endian.read_u32(bytes))
    }
}

/// Generic TIFF reader that works with any data source
///
/// This reader provides both stateful (position-tracking) and stateless
/// (offset-based) reading operations. The data source is pluggable via
/// the [`TiffDataSource`] trait.
#[derive(Debug)]
pub struct TiffReader<T: TiffDataSource> {
    /// The data source (in-memory, memory-mapped, network, etc.)
    source: T,
    /// Current reading position for stateful operations
    position: usize,
}

impl<T: TiffDataSource> TiffReader<T> {
    /// The cursor never points past the end of the data.
    #[verifier::type_invariant]
    spec fn cursor_in_bounds(self) -> bool {
        self.position <= self.source.contents().len()
    }

    /// The byte sequence of the underlying source.
    pub closed spec fn spec_contents(&self) -> Seq<u8> {
        self.source.contents()
    }

    /// The current cursor position.
    pub closed spec fn spec_position(&self) -> int {
        self.position as int
    }

    /// Create a new reader with the given data source
    pub fn new(source: T) -> (r: Self)
        ensures
            r.spec_contents() == source.contents(),
            r.spec_position() == 0,
    {
        Self { source, position: 0 }
    }

    /// Get the total size of the data
    pub fn len(&self) -> (n: usize)
        ensures
            n == self.spec_contents().len(),
    {
        self.source.len()
    }

    /// Check if the data is empty
    pub fn is_empty(&self) -> (b: bool)
        ensures
            b == (self.spec_contents().len() == 0),
    {
        self.source.is_empty()
    }

    /// Get the current reading position
    pub fn position(&self) -> (p: usize)
        ensures
            p == self.spec_position(),
    {
        self.position
    }

    /// Set the reading position
    ///
    /// # Errors
    /// Returns `OutOfBounds` if position is beyond the end of data
    pub fn seek(&mut self, position: usize) -> (r: Result<(), TiffError>)
        ensures
            final(self).spec_contents() == old(self).spec_contents(),
            match r {
                Ok(()) => {
                    &&& position <= old(self).spec_contents().len()
                    &&& final(self).spec_position() == position
                },
                Err(er) => {
                    &&& position > old(self).spec_contents().len()
                    &&& final(self).spec_position() == old(self).spec_position()
                    &&& er@ == (ErrorModel::OutOfBounds {
                        index: position as int,
                        max: old(self).spec_contents().len() as int,
                    })
                },
            },
    {
        if position > self.source.len() {
            return Err(TiffError::OutOfBounds { index: position, max: self.source.len() });
        }
        self.position = position;
        Ok(())
    }

    /// Skip ahead by `count` bytes
    pub fn skip(&mut self, count: usize) -> (r: Result<(), TiffError>)
        ensures
            final(self).spec_contents() == old(self).spec_contents(),
            match r {
                Ok(()) => {
                    &&& old(self).spec_position() + count <= old(self).spec_contents().len()
                    &&& final(self).spec_position() == old(self).spec_position() + count
                },
                Err(er) => {
                    &&& old(self).spec_position() + count > old(self).spec_contents().len()
                    &&& final(self).spec_position() == old(self).spec_position()
                    &&& er@ == (ErrorModel::OutOfBounds {
                        index: sat_index(old(self).spec_position() + count),
                        max: old(self).spec_contents().len() as int,
                    })
                },
            },
    {
        match self.position.checked_add(count) {
            Some(p) => self.seek(p),
            None => {
                proof {
                    self.source.contents_len_bounded();
                }
                Err(TiffError::OutOfBounds { index: usize::MAX, max: self.source.len() })
            },
        }
    }

    /// Get remaining bytes from current position
    pub fn remaining(&self) -> (n: usize)
        ensures
            n == if self.spec_position() <= self.spec_contents().len() {
                self.spec_contents().len() - self.spec_position()
            } else {
                0
            },
    {
        let l = self.source.len();
        if self.position <= l {
            l - self.position
        } else {
            0
        }
    }

    /// Check if we're at the end of the data
    pub fn is_at_end(&self) -> (b: bool)
        ensures
            b == (self.spec_position() >= self.spec_contents().len()),
    {
        self.position >= self.source.len()
    }

    // =============================================================================
    // Stateful reading methods (advance position)
    // =============================================================================

    /// Read a single byte and advance position
    pub fn read_u8(&mut self) -> (r: Result<u8, TiffError>)
        ensures
            final(self).spec_contents() == old(self).spec_contents(),
            match r {
                Ok(b) => {
                    &&& old(self).spec_position() + 1 <= old(self).spec_contents().len()
                    &&& b == old(self).spec_contents()[old(self).spec_position()]
                    &&& final(self).spec_position() == old(self).spec_position() + 1
                },
                Err(er) => {
                    &&& old(self).spec_position() + 1 > old(self).spec_contents().len()
                    &&& final(self).spec_position() == old(self).spec_position()
                    &&& er@ == (ErrorModel::OutOfBounds {
                        index: sat_index(old(self).spec_position() + 1),
                        max: old(self).spec_contents().len() as int,
                    })
                },
            },
    {
        let value = match self.source.read_u8_at(self.position) {
            Ok(v) => v,
            Err(er) => {
                return Err(er);
            },
        };
        proof {
            self.source.contents_len_bounded();
        }
        self.position = self.position + 1;
        Ok(value)
    }

    /// Read a u16 and advance position
    pub fn read_u16(&mut self, endian: Endian) -> (r: Result<u16, TiffError>)
        ensures
            final(self).spec_contents() == old(self).spec_contents(),
            match r {
                Ok(v) => {
                    &&& old(self).spec_position() + 2 <= old(self).spec_contents().len()
                    &&& v == u16_at(old(self).spec_contents(), old(self).spec_position(), endian)
                    &&& final(self).spec_position() == old(self).spec_position() + 2
                },
                Err(er) => {
                    &&& old(self).spec_position() + 2 > old(self).spec_contents().len()
                    &&& final(self).spec_position() == old(self).spec_position()
                    &&& er@ == (ErrorModel::OutOfBounds {
                        index: sat_index(old(self).spec_position() + 2),
                        max: old(self).spec_contents().len() as int,
                    })
                },
            },
    {
        let value = match self.source.read_u16_at(self.position, endian) {
            Ok(v) => v,
            Err(er) => {
                return Err(er);
            },
        };
        proof {
            self.source.contents_len_bounded();
        }
        self.position = self.position + 2;
        Ok(value)
    }

    /// Read a u32 and advance position
    pub fn read_u32(&mut self, endian: Endian) -> (r: Result<u32, TiffError>)
        ensures
            final(self).spec_contents() == old(self).spec_contents(),
            match r {
                Ok(v) => {
                    &&& old(self).spec_position() + 4 <= old(self).spec_contents().len()
                    &&& v == u32_at(old(self).spec_contents(), old(self).spec_position(), endian)
                    &&& final(self).spec_position() == old(self).spec_position() + 4
                },
                Err(er) => {
                    &&& old(self).spec_position() + 4 > old(self).spec_contents().len()
                    &&& final(self).spec_position() == old(self).spec_position()
                    &&& er@ == (ErrorModel::OutOfBounds {
                        index: sat_index(old(self).spec_position() + 4),
                        max: old(self).spec_contents().len() as int,
                    })
                },
            },
    {
        let value = match self.source.read_u32_at(self.position, endian) {
            Ok(v) => v,
            Err(er) => {
                return Err(er);
            },
        };
        proof {
            self.source.contents_len_bounded();
        }
        self.position = self.position + 4;
        Ok(value)
    }

    /// Read exactly `count` bytes and advance position
    pub fn read_bytes(&mut self, count: usize) -> (r: Result<Vec<u8>, TiffError>)
        ensures
            final(self).spec_contents() == old(self).spec_contents(),
            match r {
                Ok(v) => {
                    &&& old(self).spec_position() + count <= old(self).spec_contents().len()
                    &&& v@ == old(self).spec_contents().subrange(
                        old(self).spec_position(),
                        old(self).spec_position() + count,
                    )
                    &&& final(self).spec_position() == old(self).spec_position() + count
                },
                Err(er) => {
                    &&& old(self).spec_position() + count > old(self).spec_contents().len()
                    &&& final(self).spec_position() == old(self).spec_position()
                    &&& er@ == (ErrorModel::OutOfBounds {
                        index: sat_index(old(self).spec_position() + count),
                        max: old(self).spec_contents().len() as int,
                    })
                },
            },
    {
        let value = match self.source.read_bytes_at(self.position, count) {
            Ok(v) => v,
            Err(er) => {
                return Err(er);
            },
        };
        proof {
            self.source.contents_len_bounded();
        }
        self.position = self.position + count;
        Ok(value)
    }

    // =============================================================================
    // Stateless reading methods (don't change position) - delegate to source
    // =============================================================================

    /// Read a u8 at a specific offset without changing position
    pub fn read_u8_at(&self, offset: usize) -> (r: Result<u8, TiffError>)
        ensures
            match r {
                Ok(b) => offset + 1 <= self.spec_contents().len() && b == self.spec_contents()[
                    offset as int
                ],
                Err(er) => {
                    &&& offset + 1 > self.spec_contents().len()
                    &&& er@ == (ErrorModel::OutOfBounds {
                        index: sat_index(offset + 1),
                        max: self.spec_contents().len() as int,
                    })
                },
            },
    {
        self.source.read_u8_at(offset)
    }

    /// Read a u16 at a specific offset without changing position
    pub fn read_u16_at(&self, offset: usize, endian: Endian) -> (r: Result<u16, TiffError>)
        ensures
            match r {
                Ok(v) => offset + 2 <= self.spec_contents().len() && v == u16_at(
                    self.spec_contents(),
                    offset as int,
                    endian,
                ),
                Err(er) => {
                    &&& offset + 2 > self.spec_contents().len()
                    &&& er@ == (ErrorModel::OutOfBounds {
                        index: sat_index(offset + 2),
                        max: self.spec_contents().len() as int,
                    })
                },
            },
    {
        self.source.read_u16_at(offset, endian)
    }

    /// Read a u32 at a specific offset without changing position
    pub fn read_u32_at(&self, offset: usize, endian: Endian) -> (r: Result<u32, TiffError>)
        ensures
            match r {
                Ok(v) => offset + 4 <= self.spec_contents().len() && v == u32_at(
                    self.spec_contents(),
                    offset as int,
                    endian,
                ),
                Err(er) => {
                    &&& offset + 4 > self.spec_contents().len()
                    &&& er@ == (ErrorModel::OutOfBounds {
                        index: sat_index(offset + 4),
                        max: self.spec_contents().len() as int,
                    })
                },
            },
    {
        self.source.read_u32_at(offset, endian)
    }

    /// Read bytes at a specific offset without changing position
    pub fn read_bytes_at(&self, offset: usize, count: usize) -> (r: Result<Vec<u8>, TiffError>)
        ensures
            match r {
                Ok(v) => {
                    &&& offset + count <= self.spec_contents().len()
                    &&& v@ == self.spec_contents().subrange(offset as int, offset + count)
                },
                Err(er) => {
                    &&& offset + count > self.spec_contents().len()
                    &&& er@ == (ErrorModel::OutOfBounds {
                        index: sat_index(offset + count),
                        max: self.spec_contents().len() as int,
                    })
                },
            },
    {
        self.source.read_bytes_at(offset, count)
    }

    // =============================================================================
    // Array reading methods
    // =============================================================================

    /// Read an array of u16s and advance position
    #[verifier::loop_isolation(false)]
    pub fn read_u16_array(&mut self, count: usize, endian: Endian) -> (r: Result<
        Vec<u16>,
        TiffError,
    >)
        ensures
            final(self).spec_contents() == old(self).spec_contents(),
            ({
                let d = old(self).spec_contents();
                let p = old(self).spec_position();
                match r {
                    Ok(v) => {
                        &&& p + 2 * count <= d.len()
                        &&& v@.len() == count
                        &&& (forall|i: int|
                            0 <= i < count ==> v@[i] == u16_at(d, p + 2 * i, endian))
                        &&& final(self).spec_position() == p + 2 * count
                    },
                    Err(er) => {
                        let k = whole_elems(d.len() as int, p, 2, count as int);
                        &&& p + 2 * count > d.len()
                        &&& final(self).spec_position() == p + 2 * k
                        &&& er@ == (ErrorModel::OutOfBounds {
                            index: sat_index(p + 2 * k + 2),
                            max: d.len() as int,
                        })
                    },
                }
            }),
    {
        let ghost d = self.spec_contents();
        let ghost p = self.spec_position();
        let mut result: Vec<u16> = Vec::new();
        let mut i: usize = 0;
        while i < count
            invariant
                i <= count,
                self.spec_contents() == d,
                self.spec_position() == p + 2 * i,
                result@.len() == i,
                forall|j: int| 0 <= j < i ==> result@[j] == u16_at(d, p + 2 * j, endian),
                i > 0 ==> p + 2 * i <= d.len(),
            decreases count - i,
        {
            match self.read_u16(endian) {
                Ok(v) => {
                    result.push(v);
                    i = i + 1;
                },
                Err(er) => {
                    proof {
                        lemma_whole_elems_stop(d.len() as int, p, 2, count as int, i as int);
                    }
                    return Err(er);
                },
            }
        }
        proof {
            use_type_invariant(&*self);
        }
        Ok(result)
    }

    /// Read an array of u32s and advance position
    #[verifier::loop_isolation(false)]
    pub fn read_u32_array(&mut self, count: usize, endian: Endian) -> (r: Result<
        Vec<u32>,
        TiffError,
    >)
        ensures
            final(self).spec_contents() == old(self).spec_contents(),
            ({
                let d = old(self).spec_contents();
                let p = old(self).spec_position();
                match r {
                    Ok(v) => {
                        &&& p + 4 * count <= d.len()
                        &&& v@.len() == count
                        &&& (forall|i: int|
                            0 <= i < count ==> v@[i] == u32_at(d, p + 4 * i, endian))
                        &&& final(self).spec_position() == p + 4 * count
                    },
                    Err(er) => {
                        let k = whole_elems(d.len() as int, p, 4, count as int);
                        &&& p + 4 * count > d.len()
                        &&& final(self).spec_position() == p + 4 * k
                        &&& er@ == (ErrorModel::OutOfBounds {
                            index: sat_index(p + 4 * k + 4),
                            max: d.len() as int,
                        })
                    },
                }
            }),
    {
        let ghost d = self.spec_contents();
        let ghost p = self.spec_position();
        let mut result: Vec<u32> = Vec::new();
        let mut i: usize = 0;
        while i < count
            invariant
                i <= count,
                self.spec_contents() == d,
                self.spec_position() == p + 4 * i,
                result@.len() == i,
                forall|j: int| 0 <= j < i ==> result@[j] == u32_at(d, p + 4 * j, endian),
                i > 0 ==> p + 4 * i <= d.len(),
            decreases count - i,
        {
            match self.read_u32(endian) {
                Ok(v) => {
                    result.push(v);
                    i = i + 1;
                },
                Err(er) => {
                    proof {
                        lemma_whole_elems_stop(d.len() as int, p, 4, count as int, i as int);
                    }
                    return Err(er);
                },
            }
        }
        proof {
            use_type_invariant(&*self);
        }
        Ok(result)
    }

    /// Read an array of u16s at a specific offset
    #[verifier::loop_isolation(false)]
    pub fn read_u16_array_at(&self, offset: usize, count: usize, endian: Endian) -> (r: Result<
        Vec<u16>,
        TiffError,
    >)
        requires
            offset + 2 * count <= usize::MAX,
        ensures
            ({
                let d = self.spec_contents();
                match r {
                    Ok(v) => {
                        &&& count > 0 ==> offset + 2 * count <= d.len()
                        &&& v@.len() == count
                        &&& (forall|i: int|
                            0 <= i < count ==> v@[i] == u16_at(d, offset + 2 * i, endian))
                    },
                    Err(er) => {
                        let k = whole_elems(d.len() as int, offset as int, 2, count as int);
                        &&& offset + 2 * count > d.len()
                        &&& er@ == (ErrorModel::OutOfBounds {
                            index: offset + 2 * k + 2,
                            max: d.len() as int,
                        })
                    },
                }
            }),
    {
        let ghost d = self.spec_contents();
        let mut result: Vec<u16> = Vec::new();
        let mut i: usize = 0;
        while i < count
            invariant
                i <= count,
                offset + 2 * count <= usize::MAX,
                d == self.spec_contents(),
                result@.len() == i,
                forall|j: int| 0 <= j < i ==> result@[j] == u16_at(d, offset + 2 * j, endian),
                i > 0 ==> offset + 2 * i <= d.len(),
            decreases count - i,
        {
            match self.source.read_u16_at(offset + i * 2, endian) {
                Ok(v) => {
                    result.push(v);
                    i = i + 1;
                },
                Err(er) => {
                    proof {
                        lemma_whole_elems_stop(
                            d.len() as int,
                            offset as int,
                            2,
                            count as int,
                            i as int,
                        );
                    }
                    return Err(er);
                },
            }
        }
        Ok(result)
    }

    /// Read an array of u32s at a specific offset
    #[verifier::loop_isolation(false)]
    pub fn read_u32_array_at(&self, offset: usize, count: usize, endian: Endian) -> (r: Result<
        Vec<u32>,
        TiffError,
    >)
        requires
            offset + 4 * count <= usize::MAX,
        ensures
            ({
                let d = self.spec_contents();
                match r {
                    Ok(v) => {
                        &&& count > 0 ==> offset + 4 * count <= d.len()
                        &&& v@.len() == count
                        &&& (forall|i: int|
                            0 <= i < count ==> v@[i] == u32_at(d, offset + 4 * i, endian))
                    },
                    Err(er) => {
                        let k = whole_elems(d.len() as int, offset as int, 4, count as int);
                        &&& offset + 4 * count > d.len()
                        &&& er@ == (ErrorModel::OutOfBounds {
                            index: offset + 4 * k + 4,
                            max: d.len() as int,
                        })
                    },
                }
            }),
    {
        let ghost d = self.spec_contents();
        let mut result: Vec<u32> = Vec::new();
        let mut i: usize = 0;
        while i < count
            invariant
                i <= count,
                offset + 4 * count <= usize::MAX,
                d == self.spec_contents(),
                result@.len() == i,
                forall|j: int| 0 <= j < i ==> result@[j] == u32_at(d, offset + 4 * j, endian),
                i > 0 ==> offset + 4 * i <= d.len(),
            decreases count - i,
        {
            match self.source.read_u32_at(offset + i * 4, endian) {
                Ok(v) => {
                    result.push(v);
                    i = i + 1;
                },
                Err(er) => {
                    proof {
                        lemma_whole_elems_stop(
                            d.len() as int,
                            offset as int,
                            4,
                            count as int,
                            i as int,
                        );
                    }
                    return Err(er);
                },
            }
        }
        Ok(result)
    }

    // =============================================================================
    // TIFF-specific convenience methods
    // =============================================================================

    /// Read a TIFF header from the current position and advance
    pub fn read_header(&mut self) -> (r: Result<TiffHeader, TiffError>)
        ensures
            final(self).spec_contents() == old(self).spec_contents(),
            ({
                let d = old(self).spec_contents();
                let p = old(self).spec_position();
                match r {
                    Ok(h) => {
                        &&& p + 8 <= d.len()
                        &&& spec_parse_header(d.subrange(p, p + 8)) == Ok::<
                            TiffHeader,
                            ErrorModel,
                        >(h)
                        &&& final(self).spec_position() == p + 8
                    },
                    Err(er) => {
                        if p + 8 > d.len() {
                            &&& final(self).spec_position() == p
                            &&& er@ == (ErrorModel::OutOfBounds {
                                index: sat_index(p + 8),
                                max: d.len() as int,
                            })
                        } else {
                            &&& spec_parse_header(d.subrange(p, p + 8)) == Err::<
                                TiffHeader,
                                ErrorModel,
                            >(er@)
                            &&& final(self).spec_position() == p + 8
                        }
                    },
                }
            }),
    {
        let header_bytes = match self.read_bytes(8) {
            Ok(v) => v,
            Err(er) => {
                return Err(er);
            },
        };
        TiffHeader::parse(header_bytes.as_slice())
    }

    /// Read a null-terminated ASCII string and advance position
    ///
    /// Consumes bytes up to and including the first null byte, or exactly
    /// `max_length` bytes if no null occurs among them, and decodes the bytes
    /// before the null as UTF-8 text.
    ///
    /// # Arguments
    /// * `max_length` - Maximum length to read (safety limit)
    ///
    /// # Returns
    /// The string without the null terminator
    #[verifier::loop_isolation(false)]
    pub fn read_ascii_string(&mut self, max_length: usize) -> (r: Result<String, TiffError>)
        ensures
            final(self).spec_contents() == old(self).spec_contents(),
            ({
                let d = old(self).spec_contents();
                let p = old(self).spec_position();
                let lim = if max_length <= d.len() - p {
                    max_length as int
                } else {
                    d.len() - p
                };
                let w = d.subrange(p, p + lim);
                match first_zero(w) {
                    Some(k) => {
                        &&& final(self).spec_position() == p + k + 1
                        &&& match utf8_decode(w.subrange(0, k)) {
                            Some(cs) => r matches Ok(s) && s@ == cs,
                            None => r matches Err(er) && er@ == (ErrorModel::InvalidString {
                                context: "ASCII string"@,
                            }),
                        }
                    },
                    None => {
                        if lim == max_length {
                            &&& final(self).spec_position() == p + max_length
                            &&& match utf8_decode(w) {
                                Some(cs) => r matches Ok(s) && s@ == cs,
                                None => r matches Err(er) && er@ == (ErrorModel::InvalidString {
                                    context: "ASCII string"@,
                                }),
                            }
                        } else {
                            &&& final(self).spec_position() == d.len()
                            &&& r matches Err(er) && er@ == (ErrorModel::OutOfBounds {
                                index: sat_index(d.len() as int + 1),
                                max: d.len() as int,
                            })
                        }
                    },
                }
            }),
    {
        proof {
            use_type_invariant(&*self);
        }
        let ghost d = self.spec_contents();
        let ghost p = self.spec_position();
        let ghost lim = if max_length <= d.len() - p {
            max_length as int
        } else {
            d.len() - p
        };
        let ghost w = d.subrange(p, p + lim);
        let mut bytes: Vec<u8> = Vec::new();
        let mut i: usize = 0;
        while i < max_length
            invariant
                i <= max_length,
                self.spec_contents() == d,
                self.spec_position() == p + i,
                p + i <= d.len(),
                lim == if max_length <= d.len() - p {
                    max_length as int
                } else {
                    d.len() - p
                },
                w == d.subrange(p, p + lim),
                bytes@ == d.subrange(p, p + i),
                forall|j: int| 0 <= j < i ==> #[trigger] d[p + j] != 0,
            decreases max_length - i,
        {
            let byte = match self.read_u8() {
                Ok(b) => b,
                Err(er) => {
                    proof {
                        assert(p + i == d.len());
                        assert(lim == i);
                        assert(w =~= bytes@);
                        assert(forall|j: int| 0 <= j < w.len() ==> w[j] == d[p + j]);
                        lemma_first_zero_none(w);
                    }
                    return Err(er);
                },
            };
            if byte == 0 {
                proof {
                    assert(i < lim);
                    assert(forall|j: int| 0 <= j < w.len() ==> w[j] == d[p + j]);
                    lemma_first_zero_at(w, i as int);
                    assert(w.subrange(0, i as int) =~= bytes@);
                }
                return match string_from_utf8(bytes) {
                    Some(s) => Ok(s),
                    None => Err(
                        TiffError::InvalidString { context: String::from_str("ASCII string") },
                    ),
                };
            }
            bytes.push(byte);
            proof {
                assert(bytes@ =~= d.subrange(p, p + i + 1));
            }
            i = i + 1;
        }
        proof {
            assert(lim == max_length as int);
            assert(w =~= bytes@);
            assert(forall|j: int| 0 <= j < w.len() ==> w[j] == d[p + j]);
            lemma_first_zero_none(w);
        }
        match string_from_utf8(bytes) {
            Some(s) => Ok(s),
            None => Err(TiffError::InvalidString { context: String::from_str("ASCII string") }),
        }
    }

    /// Get access to the underlying data source (for advanced usage)
    pub fn source(&self) -> (r: &T)
        ensures
            r.contents() == self.spec_contents(),
    {
        &self.source
    }
}

} // verus!
