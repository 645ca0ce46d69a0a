//! TIFF tag definitions and utilities
//!
//! This module defines the standard TIFF tag numbers and the enumerations
//! their values decode to. Tags are the core of TIFF metadata - they tell us
//! what each piece of data in an IFD represents.

use vstd::prelude::*;

verus! {

// =============================================================================
// Basic image information
// =============================================================================
/// Width of the image in pixels
pub const IMAGE_WIDTH: u16 = 256;

/// Height of the image in pixels
pub const IMAGE_LENGTH: u16 = 257;

/// Number of bits per sample (per channel)
pub const BITS_PER_SAMPLE: u16 = 258;

/// Compression scheme used on the image data
pub const COMPRESSION: u16 = 259;

/// Color space interpretation of the image data
pub const PHOTOMETRIC_INTERPRETATION: u16 = 262;

// =============================================================================
// Image data organization
// =============================================================================
/// Offsets to strips of image data
pub const STRIP_OFFSETS: u16 = 273;

/// Number of samples (channels) per pixel
pub const SAMPLES_PER_PIXEL: u16 = 277;

/// Number of rows per strip
pub const ROWS_PER_STRIP: u16 = 278;

/// Byte counts for strips
pub const STRIP_BYTE_COUNTS: u16 = 279;

// =============================================================================
// Resolution and units
// =============================================================================
/// Horizontal resolution (pixels per resolution unit)
pub const X_RESOLUTION: u16 = 282;

/// Vertical resolution (pixels per resolution unit)
pub const Y_RESOLUTION: u16 = 283;

/// Resolution unit (inches, centimeters, etc.)
pub const RESOLUTION_UNIT: u16 = 296;

// =============================================================================
// Color information
// =============================================================================
/// Color map for palette images
pub const COLORMAP: u16 = 320;

/// Extra samples (alpha channel, etc.)
pub const EXTRA_SAMPLES: u16 = 338;

/// Sample format (unsigned, signed, float, etc.)
pub const SAMPLE_FORMAT: u16 = 339;

// =============================================================================
// Tiled images (alternative to strips)
// =============================================================================
/// Width of tiles in pixels
pub const TILE_WIDTH: u16 = 322;

/// Height of tiles in pixels
pub const TILE_LENGTH: u16 = 323;

/// Offsets to tiles of image data
pub const TILE_OFFSETS: u16 = 324;

/// Byte counts for tiles
pub const TILE_BYTE_COUNTS: u16 = 325;

// =============================================================================
// Compression-related
// =============================================================================
/// Predictor for compression (used with LZW and Deflate)
pub const PREDICTOR: u16 = 317;

// =============================================================================
// Metadata
// =============================================================================
/// Image description/title
pub const IMAGE_DESCRIPTION: u16 = 270;

/// Make of scanner/camera
pub const MAKE: u16 = 271;

/// Model of scanner/camera
pub const MODEL: u16 = 272;

/// Software used to create the image
pub const SOFTWARE: u16 = 305;

/// Date and time of image creation
pub const DATE_TIME: u16 = 306;

/// Artist/photographer
pub const ARTIST: u16 = 315;

/// Copyright notice
pub const COPYRIGHT: u16 = 33432;

// =============================================================================
// GeoTIFF tags
// =============================================================================
/// Model pixel scale (for geographic images)
pub const MODEL_PIXEL_SCALE: u16 = 33550;

/// Model tie points (for geographic images)
pub const MODEL_TIEPOINT: u16 = 33922;

/// Model transformation matrix
pub const MODEL_TRANSFORMATION: u16 = 34264;

/// GeoKey directory
pub const GEO_KEY_DIRECTORY: u16 = 34735;

/// GeoKey double parameters
pub const GEO_DOUBLE_PARAMS: u16 = 34736;

/// GeoKey ASCII parameters
pub const GEO_ASCII_PARAMS: u16 = 34737;

/// Compression types
///
/// These values appear in the Compression tag (259) and tell us
/// how the image data is compressed.
#[derive(Debug, Clone, Copy, PartialEq, Eq, Structural)]
pub enum Compression {
    /// No compression
    Uncompressed,
    /// CCITT Group 3 1-Dimensional Modified Huffman RLE
    Ccitt1d,
    /// CCITT Group 3 fax encoding
    Group3Fax,
    /// CCITT Group 4 fax encoding
    Group4Fax,
    /// LZW compression (common for GeoTIFF)
    Lzw,
    /// JPEG compression (old-style)
    JpegOld,
    /// JPEG compression
    Jpeg,
    /// Deflate compression (ZIP)
    Deflate,
    /// Adobe Deflate
    AdobeDeflate,
    /// PackBits compression
    PackBits,
}

/// The compression scheme named by a value of the Compression tag.
pub open spec fn spec_compression_from(value: u32) -> Option<Compression> {
    if value == 1 {
        Some(Compression::Uncompressed)
    } else if value == 2 {
        Some(Compression::Ccitt1d)
    } else if value == 3 {
        Some(Compression::Group3Fax)
    } else if value == 4 {
        Some(Compression::Group4Fax)
    } else if value == 5 {
        Some(Compression::Lzw)
    } else if value == 6 {
        Some(Compression::JpegOld)
    } else if value == 7 {
        Some(Compression::Jpeg)
    } else if value == 8 {
        Some(Compression::Deflate)
    } else if value == 32946 {
        Some(Compression::AdobeDeflate)
    } else if value == 32773 {
        Some(Compression::PackBits)
    } else {
        None
    }
}

impl Compression {
    /// Convert from u32 to Compression
    pub fn from_u32(value: u32) -> (r: Option<Self>)
        ensures
            r == spec_compression_from(value),
    {
        match value {
            1 => Some(Compression::Uncompressed),
            2 => Some(Compression::Ccitt1d),
            3 => Some(Compression::Group3Fax),
            4 => Some(Compression::Group4Fax),
            5 => Some(Compression::Lzw),
            6 => Some(Compression::JpegOld),
            7 => Some(Compression::Jpeg),
            8 => Some(Compression::Deflate),
            32946 => Some(Compression::AdobeDeflate),
            32773 => Some(Compression::PackBits),
            _ => None,
        }
    }

    /// Check if this compression type is supported by our parser
    pub fn is_supported(self) -> (r: bool)
        ensures
            r == (self == Compression::Uncompressed || self == Compression::PackBits),
    {
        match self {
            Compression::Uncompressed => true,
            Compression::PackBits => true,
            _ => false,
        }
    }
}

/// Photometric interpretation values
///
/// These values appear in the PhotometricInterpretation tag (262)
/// and tell us how to interpret the pixel values.
#[derive(Debug, Clone, Copy, PartialEq, Eq, Structural)]
pub enum PhotometricInterpretation {
    /// Min value is white (bilevel/grayscale)
    WhiteIsZero,
    /// Min value is black (bilevel/grayscale)
    BlackIsZero,
    /// RGB color model
    Rgb,
    /// Palette/indexed color
    Palette,
    /// Transparency mask
    TransparencyMask,
    /// CMYK color model
    Cmyk,
    /// YCbCr color model
    YCbCr,
    /// CIE L*a*b* color model
    CieLab,
}

/// The color interpretation named by a value of the PhotometricInterpretation tag.
pub open spec fn spec_photometric_from(value: u32) -> Option<PhotometricInterpretation> {
    if value == 0 {
        Some(PhotometricInterpretation::WhiteIsZero)
    } else if value == 1 {
        Some(PhotometricInterpretation::BlackIsZero)
    } else if value == 2 {
        Some(PhotometricInterpretation::Rgb)
    } else if value == 3 {
        Some(PhotometricInterpretation::Palette)
    } else if value == 4 {
        Some(PhotometricInterpretation::TransparencyMask)
    } else if value == 5 {
        Some(PhotometricInterpretation::Cmyk)
    } else if value == 6 {
        Some(PhotometricInterpretation::YCbCr)
    } else if value == 8 {
        Some(PhotometricInterpretation::CieLab)
    } else {
        None
    }
}

impl PhotometricInterpretation {
    /// Convert from u32 to PhotometricInterpretation
    pub fn from_u32(value: u32) -> (r: Option<Self>)
        ensures
            r == spec_photometric_from(value),
    {
        match value {
            0 => Some(PhotometricInterpretation::WhiteIsZero),
            1 => Some(PhotometricInterpretation::BlackIsZero),
            2 => Some(PhotometricInterpretation::Rgb),
            3 => Some(PhotometricInterpretation::Palette),
            4 => Some(PhotometricInterpretation::TransparencyMask),
            5 => Some(PhotometricInterpretation::Cmyk),
            6 => Some(PhotometricInterpretation::YCbCr),
            8 => Some(PhotometricInterpretation::CieLab),
            _ => None,
        }
    }
}

/// Resolution units
///
/// These values appear in the ResolutionUnit tag (296) and specify
/// the units for X/Y resolution values.
#[derive(Debug, Clone, Copy, PartialEq, Eq, Structural)]
pub enum ResolutionUnit {
    /// No absolute unit (just relative)
    NoUnit,
    /// Inch
    Inch,
    /// Centimeter
    Centimeter,
}

/// The unit named by a value of the ResolutionUnit tag.
pub open spec fn spec_resolution_unit_from(value: u32) -> Option<ResolutionUnit> {
    if value == 1 {
        Some(ResolutionUnit::NoUnit)
    } else if value == 2 {
        Some(ResolutionUnit::Inch)
    } else if value == 3 {
        Some(ResolutionUnit::Centimeter)
    } else {
        None
    }
}

impl ResolutionUnit {
    /// Convert from u32 to ResolutionUnit
    pub fn from_u32(value: u32) -> (r: Option<Self>)
        ensures
            r == spec_resolution_unit_from(value),
    {
        match value {
            1 => Some(ResolutionUnit::NoUnit),
            2 => Some(ResolutionUnit::Inch),
            3 => Some(ResolutionUnit::Centimeter),
            _ => None,
        }
    }
}

/// Sample format types
///
/// These values appear in the SampleFormat tag (339) and specify
/// how to interpret the bits in each sample.
#[derive(Debug, Clone, Copy, PartialEq, Eq, Structural)]
pub enum SampleFormat {
    /// Unsigned integer
    UInt,
    /// Signed integer
    Int,
    /// IEEE floating point
    Float,
    /// Undefined
    Undefined,
}

/// The format named by a value of the SampleFormat tag.
pub open spec fn spec_sample_format_from(value: u32) -> Option<SampleFormat> {
    if value == 1 {
        Some(SampleFormat::UInt)
    } else if value == 2 {
        Some(SampleFormat::Int)
    } else if value == 3 {
        Some(SampleFormat::Float)
    } else if value == 4 {
        Some(SampleFormat::Undefined)
    } else {
        None
    }
}

impl SampleFormat {
    /// Convert from u32 to SampleFormat
    pub fn from_u32(value: u32) -> (r: Option<Self>)
        ensures
            r == spec_sample_format_from(value),
    {
        match value {
            1 => Some(SampleFormat::UInt),
            2 => Some(SampleFormat::Int),
            3 => Some(SampleFormat::Float),
            4 => Some(SampleFormat::Undefined),
            _ => None,
        }
    }
}

/// Extra sample types
///
/// These values appear in the ExtraSamples tag (338) and specify
/// what additional samples beyond the basic color represent.
#[derive(Debug, Clone, Copy, PartialEq, Eq, Structural)]
pub enum ExtraSample {
    /// Unspecified data
    Unspecified,
    /// Associated alpha (premultiplied)
    AssociatedAlpha,
    /// Unassociated alpha
    UnassociatedAlpha,
}

/// The meaning named by a value of the ExtraSamples tag.
pub open spec fn spec_extra_sample_from(value: u32) -> Option<ExtraSample> {
    if value == 0 {
        Some(ExtraSample::Unspecified)
    } else if value == 1 {
        Some(ExtraSample::AssociatedAlpha)
    } else if value == 2 {
        Some(ExtraSample::UnassociatedAlpha)
    } else {
        None
    }
}

impl ExtraSample {
    /// Convert from u32 to ExtraSample
    pub fn from_u32(value: u32) -> (r: Option<Self>)
        ensures
            r == spec_extra_sample_from(value),
    {
        match value {
            0 => Some(ExtraSample::Unspecified),
            1 => Some(ExtraSample::AssociatedAlpha),
            2 => Some(ExtraSample::UnassociatedAlpha),
            _ => None,
        }
    }
}

/// The human-readable name of a tag.
pub open spec fn spec_tag_name(tag: u16) -> Seq<char> {
    if tag == IMAGE_WIDTH {
        "ImageWidth"@
    } else if tag == IMAGE_LENGTH {
        "ImageLength"@
    } else if tag == BITS_PER_SAMPLE {
        "BitsPerSample"@
    } else if tag == COMPRESSION {
        "Compression"@
    } else if tag == PHOTOMETRIC_INTERPRETATION {
        "PhotometricInterpretation"@
    } else if tag == STRIP_OFFSETS {
        "StripOffsets"@
    } else if tag == SAMPLES_PER_PIXEL {
        "SamplesPerPixel"@
    } else if tag == ROWS_PER_STRIP {
        "RowsPerStrip"@
    } else if tag == STRIP_BYTE_COUNTS {
        "StripByteCounts"@
    } else if tag == X_RESOLUTION {
        "XResolution"@
    } else if tag == Y_RESOLUTION {
        "YResolution"@
    } else if tag == RESOLUTION_UNIT {
        "ResolutionUnit"@
    } else if tag == COLORMAP {
        "ColorMap"@
    } else if tag == TILE_WIDTH {
        "TileWidth"@
    } else if tag == TILE_LENGTH {
        "TileLength"@
    } else if tag == TILE_OFFSETS {
        "TileOffsets"@
    } else if tag == TILE_BYTE_COUNTS {
        "TileByteCounts"@
    } else if tag == PREDICTOR {
        "Predictor"@
    } else if tag == SAMPLE_FORMAT {
        "SampleFormat"@
    } else if tag == EXTRA_SAMPLES {
        "ExtraSamples"@
    } else if tag == IMAGE_DESCRIPTION {
        "ImageDescription"@
    } else if tag == MAKE {
        "Make"@
    } else if tag == MODEL {
        "Model"@
    } else if tag == SOFTWARE {
        "Software"@
    } else if tag == DATE_TIME {
        "DateTime"@
    } else if tag == ARTIST {
        "Artist"@
    } else if tag == COPYRIGHT {
        "Copyright"@
    } else if tag == MODEL_PIXEL_SCALE {
        "ModelPixelScale"@
    } else if tag == MODEL_TIEPOINT {
        "ModelTiepoint"@
    } else if tag == MODEL_TRANSFORMATION {
        "ModelTransformation"@
    } else if tag == GEO_KEY_DIRECTORY {
        "GeoKeyDirectory"@
    } else if tag == GEO_DOUBLE_PARAMS {
        "GeoDoubleParams"@
    } else if tag == GEO_ASCII_PARAMS {
        "GeoAsciiParams"@
    } else {
        "Unknown"@
    }
}

/// Get a human-readable name for a tag
///
/// This is useful for debugging and displaying tag information.
pub fn tag_name(tag: u16) -> (r: &'static str)
    ensures
        r@ == spec_tag_name(tag),
{
    if tag == IMAGE_WIDTH {
        "ImageWidth"
    } else if tag == IMAGE_LENGTH {
        "ImageLength"
    } else if tag == BITS_PER_SAMPLE {
        "BitsPerSample"
    } else if tag == COMPRESSION {
        "Compression"
    } else if tag == PHOTOMETRIC_INTERPRETATION {
        "PhotometricInterpretation"
    } else if tag == STRIP_OFFSETS {
        "StripOffsets"
    } else if tag == SAMPLES_PER_PIXEL {
        "SamplesPerPixel"
    } else if tag == ROWS_PER_STRIP {
        "RowsPerStrip"
    } else if tag == STRIP_BYTE_COUNTS {
        "StripByteCounts"
    } else if tag == X_RESOLUTION {
        "XResolution"
    } else if tag == Y_RESOLUTION {
        "YResolution"
    } else if tag == RESOLUTION_UNIT {
        "ResolutionUnit"
    } else if tag == COLORMAP {
        "ColorMap"
    } else if tag == TILE_WIDTH {
        "TileWidth"
    } else if tag == TILE_LENGTH {
        "TileLength"
    } else if tag == TILE_OFFSETS {
        "TileOffsets"
    } else if tag == TILE_BYTE_COUNTS {
        "TileByteCounts"
    } else if tag == PREDICTOR {
        "Predictor"
    } else if tag == SAMPLE_FORMAT {
        "SampleFormat"
    } else if tag == EXTRA_SAMPLES {
        "ExtraSamples"
    } else if tag == IMAGE_DESCRIPTION {
        "ImageDescription"
    } else if tag == MAKE {
        "Make"
    } else if tag == MODEL {
        "Model"
    } else if tag == SOFTWARE {
        "Software"
    } else if tag == DATE_TIME {
        "DateTime"
    } else if tag == ARTIST {
        "Artist"
    } else if tag == COPYRIGHT {
        "Copyright"
    } else if tag == MODEL_PIXEL_SCALE {
        "ModelPixelScale"
    } else if tag == MODEL_TIEPOINT {
        "ModelTiepoint"
    } else if tag == MODEL_TRANSFORMATION {
        "ModelTransformation"
    } else if tag == GEO_KEY_DIRECTORY {
        "GeoKeyDirectory"
    } else if tag == GEO_DOUBLE_PARAMS {
        "GeoDoubleParams"
    } else if tag == GEO_ASCII_PARAMS {
        "GeoAsciiParams"
    } else {
        "Unknown"
    }
}

/// Check if a tag is required for basic TIFF compliance
pub fn is_required_tag(tag: u16) -> (r: bool)
    ensures
        r == (tag == IMAGE_WIDTH || tag == IMAGE_LENGTH || tag == STRIP_OFFSETS || tag
            == STRIP_BYTE_COUNTS),
{
    tag == IMAGE_WIDTH || tag == IMAGE_LENGTH || tag == STRIP_OFFSETS || tag == STRIP_BYTE_COUNTS
}

/// Check if a tag contains image layout information
pub fn is_layout_tag(tag: u16) -> (r: bool)
    ensures
        r == (tag == IMAGE_WIDTH || tag == IMAGE_LENGTH || tag == BITS_PER_SAMPLE || tag
            == SAMPLES_PER_PIXEL || tag == ROWS_PER_STRIP || tag == TILE_WIDTH || tag
            == TILE_LENGTH),
{
    tag == IMAGE_WIDTH || tag == IMAGE_LENGTH || tag == BITS_PER_SAMPLE || tag == SAMPLES_PER_PIXEL
        || tag == ROWS_PER_STRIP || tag == TILE_WIDTH || tag == TILE_LENGTH
}

/// Check if a tag contains image data location information
pub fn is_data_location_tag(tag: u16) -> (r: bool)
    ensures
        r == (tag == STRIP_OFFSETS || tag == STRIP_BYTE_COUNTS || tag == TILE_OFFSETS || tag
            == TILE_BYTE_COUNTS),
{
    tag == STRIP_OFFSETS || tag == STRIP_BYTE_COUNTS || tag == TILE_OFFSETS || tag
        == TILE_BYTE_COUNTS
}

} // verus!
