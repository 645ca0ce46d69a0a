//! Error types for TIFF operations.

use crate::decimal::{spec_dec, u16_to_dec, u8_to_dec, usize_to_dec};
use vstd::prelude::*;
use vstd::string::StringExecFns;

verus! {

/// TIFF-specific error type.
///
/// Every parsing function in the crate returns either a value or exactly one
/// of these errors; partial results are never mixed with success.
#[derive(Debug)]
pub enum TiffError {
    /// File or data is too small to contain required structure
    InsufficientData {
        /// What we were trying to read
        operation: String,
        /// How many bytes we needed
        needed: usize,
        /// How many bytes were available
        available: usize,
    },
    /// Invalid TIFF magic number in header
    InvalidMagic {
        /// The magic number we found
        found: u16,
    },
    /// Invalid byte order indicator in header
    InvalidByteOrder {
        /// The byte order bytes we found
        found: [u8; 2],
    },
    /// Attempted to read past the end of file
    OutOfBounds {
        /// The index we tried to access
        index: usize,
        /// The maximum valid index
        max: usize,
    },
    /// Invalid or unsupported field type in IFD entry
    InvalidFieldType {
        /// The field type value we found
        found: u16,
    },
    /// Unsupported TIFF feature
    UnsupportedFeature {
        /// Description of the unsupported feature
        feature: String,
    },
    /// File structure is malformed
    MalformedFile {
        /// Description of what's wrong
        reason: String,
    },
    /// Invalid tag data
    InvalidTag {
        /// The tag number
        tag: u16,
        /// What's wrong with it
        reason: String,
    },
    /// Invalid string data (e.g., non-UTF8 in ASCII tag)
    InvalidString {
        /// Context about where the invalid string was found
        context: String,
    },
}

/// Mathematical model of a [`TiffError`]: the same variants with strings seen
/// as character sequences and sizes as unbounded integers, so that contracts
/// can state exactly which error a function returns.
pub enum ErrorModel {
    /// Model of [`TiffError::InsufficientData`]
    InsufficientData { operation: Seq<char>, needed: int, available: int },
    /// Model of [`TiffError::InvalidMagic`]
    InvalidMagic { found: int },
    /// Model of [`TiffError::InvalidByteOrder`]
    InvalidByteOrder { found: Seq<u8> },
    /// Model of [`TiffError::OutOfBounds`]
    OutOfBounds { index: int, max: int },
    /// Model of [`TiffError::InvalidFieldType`]
    InvalidFieldType { found: u16 },
    /// Model of [`TiffError::UnsupportedFeature`]
    UnsupportedFeature { feature: Seq<char> },
    /// Model of [`TiffError::MalformedFile`]
    MalformedFile { reason: Seq<char> },
    /// Model of [`TiffError::InvalidTag`]
    InvalidTag { tag: u16, reason: Seq<char> },
    /// Model of [`TiffError::InvalidString`]
    InvalidString { context: Seq<char> },
}

impl View for TiffError {
    type V = ErrorModel;

    open spec fn view(&self) -> ErrorModel {
        match self {
            TiffError::InsufficientData { operation, needed, available } => {
                ErrorModel::InsufficientData {
                    operation: operation@,
                    needed: *needed as int,
                    available: *available as int,
                }
            },
            TiffError::InvalidMagic { found } => ErrorModel::InvalidMagic { found: *found as int },
            TiffError::InvalidByteOrder { found } => ErrorModel::InvalidByteOrder {
                found: found@,
            },
            TiffError::OutOfBounds { index, max } => ErrorModel::OutOfBounds {
                index: *index as int,
                max: *max as int,
            },
            TiffError::InvalidFieldType { found } => ErrorModel::InvalidFieldType {
                found: *found,
            },
            TiffError::UnsupportedFeature { feature } => ErrorModel::UnsupportedFeature {
                feature: feature@,
            },
            TiffError::MalformedFile { reason } => ErrorModel::MalformedFile { reason: reason@ },
            TiffError::InvalidTag { tag, reason } => ErrorModel::InvalidTag {
                tag: *tag,
                reason: reason@,
            },
            TiffError::InvalidString { context } => ErrorModel::InvalidString { context: context@ },
        }
    }
}

/// The human-readable text of an error.
pub open spec fn spec_message(m: ErrorModel) -> Seq<char> {
    match m {
        ErrorModel::InsufficientData { operation, needed, available } => "Insufficient data for "@
            + operation + ": needed "@ + spec_dec(needed) + " bytes, but only "@ + spec_dec(
            available,
        ) + " available"@,
        ErrorModel::InvalidMagic { found } => "Invalid TIFF magic number: expected 42, found "@
            + spec_dec(found),
        ErrorModel::InvalidByteOrder { found } => {
            "Invalid byte order indicator: expected 'II' or 'MM', found ["@ + spec_dec(
                found[0] as int,
            ) + ", "@ + spec_dec(found[1] as int) + "]"@
        },
        ErrorModel::OutOfBounds { index, max } => "Index "@ + spec_dec(index)
            + " out of bounds (maximum: "@ + spec_dec(max) + ")"@,
        ErrorModel::InvalidFieldType { found } => "Invalid field type: "@ + spec_dec(found as int),
        ErrorModel::UnsupportedFeature { feature } => "Unsupported TIFF feature: "@ + feature,
        ErrorModel::MalformedFile { reason } => "Malformed TIFF file: "@ + reason,
        ErrorModel::InvalidTag { tag, reason } => "Invalid tag "@ + spec_dec(tag as int) + ": "@
            + reason,
        ErrorModel::InvalidString { context } => "Invalid string data in "@ + context,
    }
}

impl TiffError {
    /// The human-readable text of this error.
    pub fn message(&self) -> (s: String)
        ensures
            s@ == spec_message(self@),
    {
        match self {
            TiffError::InsufficientData { operation, needed, available } => {
                let mut s = String::from_str("Insufficient data for ");
                s.append(operation.as_str());
                s.append(": needed ");
                let needed_dec = usize_to_dec(*needed);
                s.append(needed_dec.as_str());
                s.append(" bytes, but only ");
                let available_dec = usize_to_dec(*available);
                s.append(available_dec.as_str());
                s.append(" available");
                s
            },
            TiffError::InvalidMagic { found } => {
                let mut s = String::from_str("Invalid TIFF magic number: expected 42, found ");
                let found_dec = u16_to_dec(*found);
                s.append(found_dec.as_str());
                s
            },
            TiffError::InvalidByteOrder { found } => {
                let mut s = String::from_str(
                    "Invalid byte order indicator: expected 'II' or 'MM', found [",
                );
                let b0_dec = u8_to_dec(found[0]);
                s.append(b0_dec.as_str());
                s.append(", ");
                let b1_dec = u8_to_dec(found[1]);
                s.append(b1_dec.as_str());
                s.append("]");
                s
            },
            TiffError::OutOfBounds { index, max } => {
                let mut s = String::from_str("Index ");
                let index_dec = usize_to_dec(*index);
                s.append(index_dec.as_str());
                s.append(" out of bounds (maximum: ");
                let max_dec = usize_to_dec(*max);
                s.append(max_dec.as_str());
                s.append(")");
                s
            },
            TiffError::InvalidFieldType { found } => {
                let mut s = String::from_str("Invalid field type: ");
                let found_dec = u16_to_dec(*found);
                s.append(found_dec.as_str());
                s
            },
            TiffError::UnsupportedFeature { feature } => {
                let mut s = String::from_str("Unsupported TIFF feature: ");
                s.append(feature.as_str());
                s
            },
            TiffError::MalformedFile { reason } => {
                let mut s = String::from_str("Malformed TIFF file: ");
                s.append(reason.as_str());
                s
            },
            TiffError::InvalidTag { tag, reason } => {
                let mut s = String::from_str("Invalid tag ");
                let tag_dec = u16_to_dec(*tag);
                s.append(tag_dec.as_str());
                s.append(": ");
                s.append(reason.as_str());
                s
            },
            TiffError::InvalidString { context } => {
                let mut s = String::from_str("Invalid string data in ");
                s.append(context.as_str());
                s
            },
        }
    }
}

/// Whether an executable result agrees with its specification-level
/// counterpart: equal values on success, and the modelled error on failure.
pub open spec fn result_matches<A>(r: Result<A, TiffError>, s: Result<A, ErrorModel>) -> bool {
    match r {
        Ok(v) => s == Ok::<A, ErrorModel>(v),
        Err(er) => s == Err::<A, ErrorModel>(er@),
    }
}

} // verus!
