use tiff_core::{Compression, FieldType, IfdEntry, ImageSummary, PhotometricInterpretation, TagValue};

#[test]
fn test_field_type_conversion() {
    assert_eq!(FieldType::from_u16(1).unwrap(), FieldType::Byte);
    assert_eq!(FieldType::from_u16(3).unwrap(), FieldType::Short);
    assert_eq!(FieldType::from_u16(4).unwrap(), FieldType::Long);
    assert!(FieldType::from_u16(99).is_err());
}

#[test]
fn test_field_type_byte_sizes() {
    assert_eq!(FieldType::Byte.byte_size(), 1);
    assert_eq!(FieldType::Short.byte_size(), 2);
    assert_eq!(FieldType::Long.byte_size(), 4);
    assert_eq!(FieldType::Rational.byte_size(), 8);
}

#[test]
fn test_tag_value_conversions() {
    let shorts = TagValue::Shorts(vec![123, 456]);
    assert_eq!(shorts.as_u32(), Some(123));
    assert_eq!(shorts.as_u16(), Some(123));

    let ascii = TagValue::Ascii("Hello".to_string());
    assert_eq!(ascii.as_string(), Some("Hello"));

    // Test signed types
    let sshorts = TagValue::SShorts(vec![-123, 456]);
    assert_eq!(sshorts.as_i32(), Some(-123));

    let slongs = TagValue::SLongs(vec![-12345, 67890]);
    assert_eq!(slongs.as_i32(), Some(-12345));

    // Floating point tags carry IEEE 754 bit patterns
    let floats = TagValue::Floats(vec![3.14f32.to_bits(), 2.71f32.to_bits()]);
    if let TagValue::Floats(bits) = &floats {
        assert_eq!(f32::from_bits(bits[0]), 3.14);
    } else {
        panic!("Expected Floats variant");
    }

    let doubles = TagValue::Doubles(vec![3.14159f64.to_bits(), 2.71828f64.to_bits()]);
    if let TagValue::Doubles(bits) = &doubles {
        assert_eq!(f64::from_bits(bits[0]), 3.14159);
    } else {
        panic!("Expected Doubles variant");
    }

    // Test rationals
    let rationals = TagValue::Rationals(vec![(22, 7), (355, 113)]);
    let (num, den) = rationals.as_rational().unwrap();
    let pi_approx = num as f64 / den as f64;
    assert!((pi_approx - 3.142857).abs() < 0.001);

    let srationals = TagValue::SRationals(vec![(-22, 7)]);
    let (num, den) = srationals.as_srational().unwrap();
    let neg_pi = num as f64 / den as f64;
    assert!((neg_pi + 3.142857).abs() < 0.001);

    // A zero denominator names no finite ratio, so it yields no value
    assert_eq!(TagValue::Rationals(vec![(5, 0)]).as_rational(), None);
    assert_eq!(TagValue::SRationals(vec![(5, 0)]).as_srational(), None);
}

#[test]
fn test_ifd_entry_creation() {
    let entry = IfdEntry {
        tag: 256,        // ImageWidth
        field_type: 4,   // Long
        count: 1,
        value_offset: 1920,
    };

    assert_eq!(entry.tag, 256);
    assert_eq!(entry.count, 1);
}

#[test]
fn test_image_summary() {
    let summary = ImageSummary {
        width: 1920,
        height: 1080,
        samples_per_pixel: 3,
        bits_per_sample: vec![8, 8, 8],
        compression: Compression::Uncompressed,
        photometric_interpretation: Some(PhotometricInterpretation::Rgb),
        is_tiled: false,
    };

    assert_eq!(summary.bits_per_pixel(), 24);
    assert_eq!(summary.bytes_per_pixel(), 3);
    assert!(!summary.is_grayscale());
    assert!(summary.is_rgb());
    assert!(!summary.has_alpha());

    let desc = summary.description();
    assert!(desc.contains("1920x1080"));
    assert!(desc.contains("RGB"));
    assert!(desc.contains("24-bit"));
    assert!(desc.contains("stripped"));
}

#[test]
fn test_image_summary_grayscale_alpha() {
    let summary = ImageSummary {
        width: 800,
        height: 600,
        samples_per_pixel: 2,
        bits_per_sample: vec![8, 8],
        compression: Compression::Lzw,
        photometric_interpretation: Some(PhotometricInterpretation::BlackIsZero),
        is_tiled: true,
    };

    assert_eq!(summary.bits_per_pixel(), 16);
    assert_eq!(summary.bytes_per_pixel(), 2);
    assert!(summary.is_grayscale());
    assert!(!summary.is_rgb());
    assert!(summary.has_alpha());

    let desc = summary.description();
    assert!(desc.contains("Grayscale+Alpha"));
    assert!(desc.contains("tiled"));
}

#[test]
fn test_image_summary_rgba() {
    let summary = ImageSummary {
        width: 512,
        height: 512,
        samples_per_pixel: 4,
        bits_per_sample: vec![8, 8, 8, 8],
        compression: Compression::PackBits,
        photometric_interpretation: Some(PhotometricInterpretation::Rgb),
        is_tiled: false,
    };

    assert_eq!(summary.bits_per_pixel(), 32);
    assert_eq!(summary.bytes_per_pixel(), 4);
    assert!(!summary.is_grayscale());
    assert!(summary.is_rgb());
    assert!(summary.has_alpha());

    let desc = summary.description();
    assert!(desc.contains("RGBA"));
    assert!(desc.contains("32-bit"));
}

#[test]
fn test_summary_description_exact() {
    let summary = ImageSummary {
        width: 1920,
        height: 1080,
        samples_per_pixel: 3,
        bits_per_sample: vec![8, 8, 8],
        compression: Compression::Uncompressed,
        photometric_interpretation: Some(PhotometricInterpretation::Rgb),
        is_tiled: false,
    };
    assert_eq!(summary.description(), "1920x1080 RGB 24-bit stripped (None)");
}
