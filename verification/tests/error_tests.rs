use tiff_core::TiffError;

#[test]
fn test_error_display() {
    let error = TiffError::InvalidMagic { found: 31 };
    assert_eq!(
        error.message(),
        "Invalid TIFF magic number: expected 42, found 31"
    );
}

#[test]
fn test_insufficient_data_error() {
    let error = TiffError::InsufficientData {
        operation: "reading header".to_string(),
        needed: 8,
        available: 4,
    };
    assert_eq!(
        error.message(),
        "Insufficient data for reading header: needed 8 bytes, but only 4 available"
    );
}

#[test]
fn test_out_of_bounds_error() {
    let error = TiffError::OutOfBounds { index: 100, max: 50 };
    assert_eq!(error.message(), "Index 100 out of bounds (maximum: 50)");
}

#[test]
fn test_invalid_byte_order_message() {
    let error = TiffError::InvalidByteOrder { found: [0x58, 0x59] };
    assert_eq!(
        error.message(),
        "Invalid byte order indicator: expected 'II' or 'MM', found [88, 89]"
    );
}

#[test]
fn test_invalid_field_type_message() {
    let error = TiffError::InvalidFieldType { found: 99 };
    assert_eq!(error.message(), "Invalid field type: 99");
}

#[test]
fn test_remaining_error_messages() {
    let unsupported = TiffError::UnsupportedFeature {
        feature: "LZW compression".to_string(),
    };
    assert_eq!(
        unsupported.message(),
        "Unsupported TIFF feature: LZW compression"
    );
    let malformed = TiffError::MalformedFile {
        reason: "IFD chain exceeds maximum length".to_string(),
    };
    assert_eq!(
        malformed.message(),
        "Malformed TIFF file: IFD chain exceeds maximum length"
    );
    let invalid_tag = TiffError::InvalidTag {
        tag: 256,
        reason: "bad count".to_string(),
    };
    assert_eq!(invalid_tag.message(), "Invalid tag 256: bad count");
    let invalid_string = TiffError::InvalidString {
        context: "ASCII tag".to_string(),
    };
    assert_eq!(invalid_string.message(), "Invalid string data in ASCII tag");
}
