use tiff_core::tags::{self, ExtraSample};
use tiff_core::{
    is_data_location_tag, is_layout_tag, is_required_tag, tag_name, Compression,
    PhotometricInterpretation, ResolutionUnit, SampleFormat,
};

#[test]
fn test_compression_conversion() {
    assert_eq!(Compression::from_u32(1), Some(Compression::Uncompressed));
    assert_eq!(Compression::from_u32(5), Some(Compression::Lzw));
    assert_eq!(Compression::from_u32(32773), Some(Compression::PackBits));
    assert_eq!(Compression::from_u32(99999), None);
}

#[test]
fn test_compression_support() {
    assert!(Compression::Uncompressed.is_supported());
    assert!(Compression::PackBits.is_supported());
    assert!(!Compression::Lzw.is_supported());
    assert!(!Compression::Jpeg.is_supported());
}

#[test]
fn test_photometric_interpretation() {
    assert_eq!(
        PhotometricInterpretation::from_u32(0),
        Some(PhotometricInterpretation::WhiteIsZero)
    );
    assert_eq!(
        PhotometricInterpretation::from_u32(2),
        Some(PhotometricInterpretation::Rgb)
    );
    assert_eq!(PhotometricInterpretation::from_u32(99), None);
}

#[test]
fn test_tag_names() {
    assert_eq!(tag_name(tags::IMAGE_WIDTH), "ImageWidth");
    assert_eq!(tag_name(tags::COMPRESSION), "Compression");
}

#[test]
fn test_tag_classification() {
    // Required tags
    assert!(is_required_tag(tags::IMAGE_WIDTH));
    assert!(is_required_tag(tags::STRIP_OFFSETS));
    assert!(!is_required_tag(tags::SOFTWARE));

    // Layout tags
    assert!(is_layout_tag(tags::IMAGE_WIDTH));
    assert!(is_layout_tag(tags::BITS_PER_SAMPLE));
    assert!(!is_layout_tag(tags::SOFTWARE));

    // Data location tags
    assert!(is_data_location_tag(tags::STRIP_OFFSETS));
    assert!(is_data_location_tag(tags::TILE_OFFSETS));
    assert!(!is_data_location_tag(tags::IMAGE_WIDTH));
}

#[test]
fn test_resolution_units() {
    assert_eq!(ResolutionUnit::from_u32(2), Some(ResolutionUnit::Inch));
    assert_eq!(ResolutionUnit::from_u32(3), Some(ResolutionUnit::Centimeter));
}

#[test]
fn test_sample_formats() {
    assert_eq!(SampleFormat::from_u32(1), Some(SampleFormat::UInt));
    assert_eq!(SampleFormat::from_u32(3), Some(SampleFormat::Float));
}

#[test]
fn test_extra_samples() {
    assert_eq!(ExtraSample::from_u32(1), Some(ExtraSample::AssociatedAlpha));
    assert_eq!(
        ExtraSample::from_u32(2),
        Some(ExtraSample::UnassociatedAlpha)
    );
}

#[test]
fn test_unknown_tag_name() {
    assert_eq!(tag_name(12345), "Unknown");
}
