//! Structural decoder for the TIFF binary image-container format.
//!
//! The crate parses the 8-byte file header, walks the chain of Image File
//! Directories (IFDs), and decodes typed tag values, all without touching
//! pixel data. Every parsing step is specified against a mathematical model
//! of the byte stream and verified with Verus.
//!
//! # Architecture
//!
//! The crate is organized into several modules:
//! - `reader`: Pluggable data sources and reading utilities
//! - `header`: TIFF header parsing and endianness handling
//! - `ifd`: Image File Directory parsing and tag value extraction
//! - `tags`: Standard TIFF tag definitions and enums
//! - `error`: Error types and handling
//! - `text`: UTF-8 text decoding support
//! - `decimal`: verified decimal rendering for messages and summaries

use vstd::prelude::*;

pub mod decimal;
pub mod error;
pub mod header;
pub mod ifd;
pub mod reader;
pub mod tags;
pub mod text;

pub use error::TiffError;
pub use header::{Endian, TiffHeader};
pub use ifd::{FieldType, IfdEntry, ImageFileDirectory, ImageSummary, TagValue};
pub use reader::{InMemorySource, TiffDataSource, TiffReader};
pub use tags::{
    is_data_location_tag, is_layout_tag, is_required_tag, tag_name, Compression,
    PhotometricInterpretation, ResolutionUnit, SampleFormat,
};

use crate::error::ErrorModel;
use crate::header::spec_parse_header;
use crate::ifd::{
    spec_ifd_at, spec_ifd_err, spec_ifd_fits, spec_image_summary, spec_is_valid_tiff,
    DirectoryModel, ImageSummaryModel,
};
use vstd::string::StringExecFns;

verus! {

/// The most directories a chain walk will follow.
///
/// The format itself has no cycle protection: a file whose next-directory
/// offsets loop back would make a naive walk run forever. Walks therefore
/// stop with a malformed-file error after this many directories.
pub const MAX_IFD_COUNT: usize = 65536;

/// The views of a sequence of parsed directories.
pub open spec fn dir_models(s: Seq<ImageFileDirectory>) -> Seq<DirectoryModel> {
    s.map_values(|ifd: ImageFileDirectory| ifd@)
}

/// The views of a sequence of image summaries.
pub open spec fn summary_models(s: Seq<ImageSummary>) -> Seq<ImageSummaryModel> {
    s.map_values(|m: ImageSummary| m@)
}

/// What walking the directory chain from `off` yields: the directories in
/// chain order until a zero next-offset ends the chain, the error of the
/// first directory that does not fit, or a malformed-file error when `fuel`
/// directories were not enough (an over-long or cyclic chain).
pub open spec fn spec_chain(d: Seq<u8>, off: int, e: Endian, fuel: nat) -> Result<
    Seq<DirectoryModel>,
    ErrorModel,
>
    decreases fuel,
{
    if off == 0 {
        Ok(Seq::empty())
    } else if fuel == 0 {
        Err(ErrorModel::MalformedFile { reason: "IFD chain exceeds maximum length"@ })
    } else if !spec_ifd_fits(d, off, e) {
        Err(spec_ifd_err(d, off, e))
    } else {
        let dir = spec_ifd_at(d, off, e);
        match spec_chain(d, dir.next_ifd_offset, e, (fuel - 1) as nat) {
            Ok(rest) => Ok(seq![dir] + rest),
            Err(em) => Err(em),
        }
    }
}

/// What summarising every directory of a file yields: one summary per
/// directory, or the error of the first directory whose summary fails.
pub open spec fn spec_all_summaries(d: Seq<u8>, dirs: Seq<DirectoryModel>, e: Endian) -> Result<
    Seq<ImageSummaryModel>,
    ErrorModel,
>
    decreases dirs.len(),
{
    if dirs.len() == 0 {
        Ok(Seq::empty())
    } else {
        match spec_image_summary(d, dirs[0].entries, e) {
            Err(em) => Err(em),
            Ok(m) => match spec_all_summaries(d, dirs.drop_first(), e) {
                Ok(rest) => Ok(seq![m] + rest),
                Err(em) => Err(em),
            },
        }
    }
}

/// The main TIFF file structure
///
/// This represents a complete TIFF file with header and all IFDs.
/// Most users should use this as the high-level interface.
#[derive(Debug)]
pub struct TiffFile<T: TiffDataSource> {
    /// The underlying reader
    pub reader: TiffReader<T>,
    /// File header
    pub header: TiffHeader,
    /// All Image File Directories in the file
    pub ifds: Vec<ImageFileDirectory>,
}

impl<T: TiffDataSource> TiffFile<T> {
    /// Read a TIFF file from a data source
    ///
    /// This is the main entry point for parsing TIFF files: it parses the
    /// header at the reader's position and then eagerly walks the whole
    /// directory chain.
    #[verifier::loop_isolation(false)]
    pub fn from_reader(reader: TiffReader<T>) -> (r: Result<Self, TiffError>)
        ensures
            ({
                let d = reader.spec_contents();
                let p = reader.spec_position();
                match r {
                    Ok(f) => {
                        &&& f.reader.spec_contents() == d
                        &&& p + 8 <= d.len()
                        &&& spec_parse_header(d.subrange(p, p + 8)) == Ok::<
                            TiffHeader,
                            ErrorModel,
                        >(f.header)
                        &&& spec_chain(
                            d,
                            f.header.ifd_offset as int,
                            f.header.endian,
                            MAX_IFD_COUNT as nat,
                        ) == Ok::<Seq<DirectoryModel>, ErrorModel>(dir_models(f.ifds@))
                    },
                    Err(er) => {
                        if p + 8 > d.len() {
                            er@ == (ErrorModel::OutOfBounds {
                                index: crate::reader::sat_index(p + 8),
                                max: d.len() as int,
                            })
                        } else {
                            match spec_parse_header(d.subrange(p, p + 8)) {
                                Err(em) => er@ == em,
                                Ok(h) => spec_chain(
                                    d,
                                    h.ifd_offset as int,
                                    h.endian,
                                    MAX_IFD_COUNT as nat,
                                ) == Err::<Seq<DirectoryModel>, ErrorModel>(er@),
                            }
                        }
                    },
                }
            }),
    {
        let mut reader = reader;
        let ghost d = reader.spec_contents();
        // Read header first
        let header = match reader.read_header() {
            Ok(h) => h,
            Err(er) => {
                return Err(er);
            },
        };
        let endian = header.endianness();
        let ghost start = header.ifd_offset as int;

        // Read all IFDs. The walk is bounded: a file whose next-offsets form
        // a cycle would otherwise never end the loop.
        let mut ifds: Vec<ImageFileDirectory> = Vec::new();
        let mut ifd_offset: usize = header.ifd_offset as usize;

        while ifd_offset != 0
            invariant
                reader.spec_contents() == d,
                ifds@.len() <= MAX_IFD_COUNT,
                spec_chain(d, start, endian, MAX_IFD_COUNT as nat) == (match spec_chain(
                    d,
                    ifd_offset as int,
                    endian,
                    (MAX_IFD_COUNT - ifds@.len()) as nat,
                ) {
                    Ok(rest) => Ok::<Seq<DirectoryModel>, ErrorModel>(dir_models(ifds@) + rest),
                    Err(em) => Err::<Seq<DirectoryModel>, ErrorModel>(em),
                }),
            decreases MAX_IFD_COUNT - ifds@.len(),
        {
            if ifds.len() >= MAX_IFD_COUNT {
                return Err(
                    TiffError::MalformedFile {
                        reason: String::from_str("IFD chain exceeds maximum length"),
                    },
                );
            }
            let ghost prev = ifds@;
            let ghost fuel = (MAX_IFD_COUNT - prev.len()) as nat;
            let ifd = match reader.read_ifd(ifd_offset, endian) {
                Ok(v) => v,
                Err(er) => {
                    return Err(er);
                },
            };
            ifd_offset = ifd.next_ifd_offset;
            ifds.push(ifd);
            proof {
                assert(dir_models(ifds@) =~= dir_models(prev) + seq![ifd@]);
                match spec_chain(d, ifd@.next_ifd_offset, endian, (fuel - 1) as nat) {
                    Ok(rest) => {
                        assert(dir_models(prev) + (seq![ifd@] + rest) =~= (dir_models(prev) + seq![
                            ifd@,
                        ]) + rest);
                    },
                    Err(_) => {},
                }
            }
        }
        proof {
            assert(dir_models(ifds@) + Seq::<DirectoryModel>::empty() =~= dir_models(ifds@));
        }
        Ok(TiffFile { reader, header, ifds })
    }

    /// Get the number of images (IFDs) in this file
    pub fn image_count(&self) -> (n: usize)
        ensures
            n == self.ifds@.len(),
    {
        self.ifds.len()
    }

    /// Get a specific IFD by index
    pub fn get_ifd(&self, index: usize) -> (r: Option<&ImageFileDirectory>)
        ensures
            match r {
                Some(ifd) => index < self.ifds@.len() && *ifd == self.ifds@[index as int],
                None => index >= self.ifds@.len(),
            },
    {
        if index < self.ifds.len() {
            Some(&self.ifds[index])
        } else {
            None
        }
    }

    /// Get the first (main) image's IFD
    pub fn main_ifd(&self) -> (r: Option<&ImageFileDirectory>)
        ensures
            match r {
                Some(ifd) => self.ifds@.len() > 0 && *ifd == self.ifds@[0],
                None => self.ifds@.len() == 0,
            },
    {
        self.get_ifd(0)
    }

    /// Get the endianness of this TIFF file
    pub fn endianness(&self) -> (e: Endian)
        ensures
            e == self.header.endian,
    {
        self.header.endianness()
    }

    /// Get basic image information from the main IFD
    pub fn main_image_info(&self) -> (r: Result<Option<ImageSummary>, TiffError>)
        ensures
            if self.ifds@.len() == 0 {
                r matches Ok(o) && o is None
            } else {
                match spec_image_summary(
                    self.reader.spec_contents(),
                    self.ifds@[0]@.entries,
                    self.header.endian,
                ) {
                    Ok(m) => r matches Ok(o) && o matches Some(s) && s@ == m,
                    Err(em) => r matches Err(er) && er@ == em,
                }
            },
    {
        if let Some(ifd) = self.main_ifd() {
            match ifd.image_summary(&self.reader, self.header.endianness()) {
                Ok(s) => Ok(Some(s)),
                Err(er) => Err(er),
            }
        } else {
            Ok(None)
        }
    }

    /// Get image information for all IFDs
    #[verifier::loop_isolation(false)]
    pub fn all_image_info(&self) -> (r: Result<Vec<ImageSummary>, TiffError>)
        ensures
            match spec_all_summaries(
                self.reader.spec_contents(),
                dir_models(self.ifds@),
                self.header.endian,
            ) {
                Ok(ms) => r matches Ok(v) && summary_models(v@) == ms,
                Err(em) => r matches Err(er) && er@ == em,
            },
    {
        let ghost d = self.reader.spec_contents();
        let ghost models = dir_models(self.ifds@);
        let ghost e = self.header.endian;
        let mut summaries: Vec<ImageSummary> = Vec::new();
        let mut i: usize = 0;
        proof {
            assert(models.skip(0) =~= models);
            assert(summary_models(summaries@) =~= Seq::<ImageSummaryModel>::empty());
            match spec_all_summaries(d, models, e) {
                Ok(rest) => {
                    assert(summary_models(summaries@) + rest =~= rest);
                },
                Err(_) => {},
            }
        }
        while i < self.ifds.len()
            invariant
                i <= self.ifds@.len(),
                summaries@.len() == i,
                spec_all_summaries(d, models, e) == (match spec_all_summaries(
                    d,
                    models.skip(i as int),
                    e,
                ) {
                    Ok(rest) => Ok::<Seq<ImageSummaryModel>, ErrorModel>(
                        summary_models(summaries@) + rest,
                    ),
                    Err(em) => Err::<Seq<ImageSummaryModel>, ErrorModel>(em),
                }),
            decreases self.ifds@.len() - i,
        {
            let ghost prev = summaries@;
            proof {
                assert(models[i as int] == self.ifds@[i as int]@);
                assert(models.skip(i as int)[0] == models[i as int]);
                assert(models.skip(i as int).drop_first() =~= models.skip(i + 1));
            }
            let summary = match self.ifds[i].image_summary(&self.reader, self.header.endianness()) {
                Ok(s) => s,
                Err(er) => {
                    return Err(er);
                },
            };
            proof {
                match spec_all_summaries(d, models.skip(i + 1), e) {
                    Ok(rest) => {
                        assert(summary_models(prev) + (seq![summary@] + rest) =~= (summary_models(
                            prev,
                        ) + seq![summary@]) + rest);
                    },
                    Err(_) => {},
                }
            }
            summaries.push(summary);
            i = i + 1;
            proof {
                assert(summary_models(summaries@) =~= summary_models(prev) + seq![summary@]);
            }
        }
        proof {
            assert(models.skip(i as int).len() == 0);
            assert(summary_models(summaries@) + Seq::<ImageSummaryModel>::empty() =~= summary_models(
                summaries@,
            ));
        }
        Ok(summaries)
    }

    /// Check if this is a valid TIFF file
    ///
    /// A file with no directories is not valid; otherwise the main
    /// directory must carry the required tags.
    pub fn is_valid(&self) -> (r: Result<bool, TiffError>)
        ensures
            if self.ifds@.len() == 0 {
                r matches Ok(b) && b == false
            } else {
                crate::error::result_matches(
                    r,
                    spec_is_valid_tiff(
                        self.reader.spec_contents(),
                        self.ifds@[0]@.entries,
                        self.header.endian,
                    ),
                )
            },
    {
        if self.ifds.is_empty() {
            return Ok(false);
        }
        if let Some(main_ifd) = self.main_ifd() {
            main_ifd.is_valid_tiff(&self.reader, self.header.endianness())
        } else {
            Ok(false)
        }
    }
}

impl TiffFile<InMemorySource> {
    /// Create from in-memory data
    ///
    /// Convenience method for the common case of loading a file into memory.
    pub fn from_bytes(data: Vec<u8>) -> (r: Result<Self, TiffError>)
        ensures
            ({
                let d = data@;
                match r {
                    Ok(f) => {
                        &&& f.reader.spec_contents() == d
                        &&& d.len() >= 8
                        &&& spec_parse_header(d.subrange(0, 8)) == Ok::<
                            TiffHeader,
                            ErrorModel,
                        >(f.header)
                        &&& spec_chain(
                            d,
                            f.header.ifd_offset as int,
                            f.header.endian,
                            MAX_IFD_COUNT as nat,
                        ) == Ok::<Seq<DirectoryModel>, ErrorModel>(dir_models(f.ifds@))
                    },
                    Err(er) => {
                        if d.len() < 8 {
                            er@ == (ErrorModel::OutOfBounds { index: 8, max: d.len() as int })
                        } else {
                            match spec_parse_header(d.subrange(0, 8)) {
                                Err(em) => er@ == em,
                                Ok(h) => spec_chain(
                                    d,
                                    h.ifd_offset as int,
                                    h.endian,
                                    MAX_IFD_COUNT as nat,
                                ) == Err::<Seq<DirectoryModel>, ErrorModel>(er@),
                            }
                        }
                    },
                }
            }),
    {
        let source = InMemorySource::new(data);
        let reader = TiffReader::new(source);
        Self::from_reader(reader)
    }
}

/// A directory whose next-directory offset is zero ends the chain: the
/// walk started at it collects exactly that one directory.
pub proof fn lemma_chain_stops_at_zero_next(d: Seq<u8>, off: int, e: Endian)
    requires
        off != 0,
        spec_ifd_fits(d, off, e),
        spec_ifd_at(d, off, e).next_ifd_offset == 0,
    ensures
        spec_chain(d, off, e, MAX_IFD_COUNT as nat) == Ok::<Seq<DirectoryModel>, ErrorModel>(
            seq![spec_ifd_at(d, off, e)],
        ),
{
    let dir = spec_ifd_at(d, off, e);
    assert(spec_chain(d, 0, e, (MAX_IFD_COUNT - 1) as nat) == Ok::<
        Seq<DirectoryModel>,
        ErrorModel,
    >(Seq::empty()));
    assert(seq![dir] + Seq::<DirectoryModel>::empty() =~= seq![dir]);
}

} // verus!
