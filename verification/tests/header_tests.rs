use tiff_core::{Endian, TiffError, TiffHeader};

#[test]
fn test_header_size_constant() {
    assert_eq!(TiffHeader::SIZE, 8);
    assert_eq!(TiffHeader::MAGIC_NUMBER, 42);
}

#[test]
fn test_little_endian_header() {
    // Little-endian TIFF: "II" + 42 + offset 8
    let data = [0x49, 0x49, 0x2A, 0x00, 0x08, 0x00, 0x00, 0x00];

    let header = TiffHeader::parse(&data).unwrap();
    assert_eq!(header.endian, Endian::Little);
    assert_eq!(header.magic, 42);
    assert_eq!(header.ifd_offset, 8);
    assert!(header.is_little_endian());
    assert!(!header.is_big_endian());
}

#[test]
fn test_big_endian_header() {
    // Big-endian TIFF: "MM" + 42 + offset 8
    let data = [0x4D, 0x4D, 0x00, 0x2A, 0x00, 0x00, 0x00, 0x08];

    let header = TiffHeader::parse(&data).unwrap();
    assert_eq!(header.endian, Endian::Big);
    assert_eq!(header.magic, 42);
    assert_eq!(header.ifd_offset, 8);
    assert!(!header.is_little_endian());
    assert!(header.is_big_endian());
}

#[test]
fn test_endian_read_methods() {
    // Test little-endian reading
    let little = Endian::Little;
    assert_eq!(little.read_u16([0x34, 0x12]), 0x1234);
    assert_eq!(little.read_u32([0x78, 0x56, 0x34, 0x12]), 0x12345678);

    // Test big-endian reading
    let big = Endian::Big;
    assert_eq!(big.read_u16([0x12, 0x34]), 0x1234);
    assert_eq!(big.read_u32([0x12, 0x34, 0x56, 0x78]), 0x12345678);
}

#[test]
fn test_insufficient_data() {
    let data = [0x49, 0x49, 0x2A]; // Only 3 bytes

    let result = TiffHeader::parse(&data);
    assert!(result.is_err());

    if let Err(TiffError::InsufficientData { operation, needed, available }) = result {
        assert_eq!(operation, "reading TIFF header");
        assert_eq!(needed, 8);
        assert_eq!(available, 3);
    } else {
        panic!("Expected InsufficientData error");
    }
}

#[test]
fn test_invalid_magic() {
    // Valid endian but wrong magic number (43 instead of 42)
    let data = [0x49, 0x49, 0x2B, 0x00, 0x08, 0x00, 0x00, 0x00];

    let result = TiffHeader::parse(&data);
    assert!(result.is_err());

    if let Err(TiffError::InvalidMagic { found }) = result {
        assert_eq!(found, 43);
    } else {
        panic!("Expected InvalidMagic error");
    }
}

#[test]
fn test_invalid_byte_order() {
    // Invalid byte order indicator
    let data = [0x58, 0x58, 0x2A, 0x00, 0x08, 0x00, 0x00, 0x00];

    let result = TiffHeader::parse(&data);
    assert!(result.is_err());

    if let Err(TiffError::InvalidByteOrder { found }) = result {
        assert_eq!(found, [0x58, 0x58]);
    } else {
        panic!("Expected InvalidByteOrder error");
    }
}

#[test]
fn test_zero_ifd_offset() {
    // Valid header but with IFD offset of 0 (unusual but technically valid)
    let data = [0x49, 0x49, 0x2A, 0x00, 0x00, 0x00, 0x00, 0x00];

    let header = TiffHeader::parse(&data).unwrap();
    assert_eq!(header.ifd_offset, 0);
}

#[test]
fn test_header_round_trip() {
    // Bytes chosen from an order and an offset parse back to exactly them.
    for (marker, offset) in [
        ([0x49u8, 0x49u8], 0u32),
        ([0x49, 0x49], 8),
        ([0x49, 0x49], 0x0102_0304),
        ([0x4D, 0x4D], 8),
        ([0x4D, 0x4D], 0xFFFF_FFFF),
    ] {
        let little = marker[0] == 0x49;
        let magic: u16 = 42;
        let mut data = vec![marker[0], marker[1]];
        if little {
            data.extend_from_slice(&magic.to_le_bytes());
            data.extend_from_slice(&offset.to_le_bytes());
        } else {
            data.extend_from_slice(&magic.to_be_bytes());
            data.extend_from_slice(&offset.to_be_bytes());
        }
        let header = TiffHeader::parse(&data).unwrap();
        assert_eq!(
            header.endian,
            if little { Endian::Little } else { Endian::Big }
        );
        assert_eq!(header.magic, 42);
        assert_eq!(header.ifd_offset, offset);
    }
}

#[test]
fn test_truncated_header_prefixes() {
    // Every prefix shorter than the 8-byte header is rejected, never read past.
    let data = [0x49, 0x49, 0x2A, 0x00, 0x08, 0x00, 0x00, 0x00];
    for n in 0..8 {
        let result = TiffHeader::parse(&data[..n]);
        match result {
            Err(TiffError::InsufficientData { needed, available, .. }) => {
                assert_eq!(needed, 8);
                assert_eq!(available, n);
            }
            _ => panic!("Expected InsufficientData error for prefix of {n} bytes"),
        }
    }
}
