use tiff_core::{Endian, InMemorySource, TiffDataSource, TiffReader};

fn create_test_data() -> Vec<u8> {
    vec![
        // TIFF header (8 bytes)
        0x49, 0x49, // "II" - little endian
        0x2A, 0x00, // Magic number 42
        0x08, 0x00, 0x00, 0x00, // IFD offset 8
        // Extra data for testing
        0x12, 0x34, 0x56, 0x78, // 4 more bytes
    ]
}

#[test]
fn test_in_memory_source_creation() {
    let data = create_test_data();
    let source = InMemorySource::new(data.clone());

    assert_eq!(source.len(), data.len());
    assert!(!source.is_empty());
    assert_eq!(source.as_slice(), &data[..]);
}

#[test]
fn test_in_memory_source_bounds_checking() {
    let data = vec![0x01, 0x02];
    let source = InMemorySource::new(data);

    // These should fail due to insufficient data
    assert!(source.read_bytes_at(0, 10).is_err());
    assert!(source.read_u16_at(1, Endian::Little).is_err());
    assert!(source.read_u32_at(0, Endian::Little).is_err());
}

#[test]
fn test_in_memory_source_reading() {
    let data = create_test_data();
    let source = InMemorySource::new(data.clone());

    // Test reading bytes
    let bytes = source.read_bytes_at(0, 4).unwrap();
    assert_eq!(bytes, &data[0..4]);

    // Test reading primitives
    assert_eq!(source.read_u8_at(0).unwrap(), 0x49);
    assert_eq!(source.read_u16_at(0, Endian::Little).unwrap(), 0x4949);
    assert_eq!(source.read_u32_at(4, Endian::Little).unwrap(), 0x00000008);
}

#[test]
fn test_reader_creation() {
    let data = create_test_data();
    let source = InMemorySource::new(data.clone());
    let reader = TiffReader::new(source);

    assert_eq!(reader.len(), data.len());
    assert_eq!(reader.position(), 0);
    assert!(!reader.is_empty());
    assert!(!reader.is_at_end());
}

#[test]
fn test_seeking() {
    let data = create_test_data();
    let source = InMemorySource::new(data);
    let mut reader = TiffReader::new(source);

    assert!(reader.seek(5).is_ok());
    assert_eq!(reader.position(), 5);

    // Seeking past end should fail
    assert!(reader.seek(1000).is_err());

    // Seeking to end should work
    assert!(reader.seek(reader.len()).is_ok());
    assert_eq!(reader.position(), reader.len());
}

#[test]
fn test_stateful_reading() {
    let data = create_test_data();
    let source = InMemorySource::new(data);
    let mut reader = TiffReader::new(source);

    // Read header components
    assert_eq!(reader.read_u8().unwrap(), 0x49);
    assert_eq!(reader.position(), 1);

    assert_eq!(reader.read_u8().unwrap(), 0x49);
    assert_eq!(reader.position(), 2);

    assert_eq!(reader.read_u16(Endian::Little).unwrap(), 42);
    assert_eq!(reader.position(), 4);

    assert_eq!(reader.read_u32(Endian::Little).unwrap(), 8);
    assert_eq!(reader.position(), 8);
}

#[test]
fn test_stateless_reading() {
    let data = create_test_data();
    let source = InMemorySource::new(data);
    let reader = TiffReader::new(source);

    // Position shouldn't change
    assert_eq!(reader.read_u16_at(0, Endian::Little).unwrap(), 0x4949);
    assert_eq!(reader.position(), 0);

    assert_eq!(reader.read_u32_at(4, Endian::Little).unwrap(), 8);
    assert_eq!(reader.position(), 0);
}

#[test]
fn test_header_reading() {
    let data = create_test_data();
    let source = InMemorySource::new(data);
    let mut reader = TiffReader::new(source);

    let header = reader.read_header().unwrap();
    assert_eq!(header.endianness(), Endian::Little);
    assert_eq!(header.magic, 42);
    assert_eq!(header.ifd_offset, 8);
    assert_eq!(reader.position(), 8); // Should advance position
}

#[test]
fn test_array_reading() {
    let data = vec![0x12, 0x34, 0x56, 0x78, 0x9A, 0xBC];
    let source = InMemorySource::new(data);
    let mut reader = TiffReader::new(source);

    let values = reader.read_u16_array(3, Endian::Big).unwrap();
    assert_eq!(values, vec![0x1234, 0x5678, 0x9ABC]);
    assert_eq!(reader.position(), 6);
}

#[test]
fn test_endian_conversion() {
    // Test our endian conversion works correctly
    let data = vec![0x12, 0x34, 0x56, 0x78];
    let source = InMemorySource::new(data);

    // Little endian: 0x3412
    assert_eq!(source.read_u16_at(0, Endian::Little).unwrap(), 0x3412);

    // Big endian: 0x1234
    assert_eq!(source.read_u16_at(0, Endian::Big).unwrap(), 0x1234);

    // Little endian u32: 0x78563412
    assert_eq!(source.read_u32_at(0, Endian::Little).unwrap(), 0x78563412);

    // Big endian u32: 0x12345678
    assert_eq!(source.read_u32_at(0, Endian::Big).unwrap(), 0x12345678);
}

#[test]
fn test_skip_functionality() {
    let data = create_test_data();
    let source = InMemorySource::new(data);
    let mut reader = TiffReader::new(source);

    // Test skipping
    assert!(reader.skip(3).is_ok());
    assert_eq!(reader.position(), 3);

    assert!(reader.skip(2).is_ok());
    assert_eq!(reader.position(), 5);

    // Skip past end should fail
    assert!(reader.skip(1000).is_err());
}

#[test]
fn test_ascii_string_reading() {
    let data = b"Hello\0World\0Extra".to_vec();
    let source = InMemorySource::new(data);
    let mut reader = TiffReader::new(source);

    let string1 = reader.read_ascii_string(10).unwrap();
    assert_eq!(string1, "Hello");
    assert_eq!(reader.position(), 6); // "Hello\0" = 6 bytes

    let string2 = reader.read_ascii_string(10).unwrap();
    assert_eq!(string2, "World");
    assert_eq!(reader.position(), 12); // Previous 6 + "World\0" = 12 bytes
}

#[test]
fn test_array_reading_at_offset() {
    let data = vec![0xFF, 0xFF, 0x12, 0x34, 0x56, 0x78, 0x9A, 0xBC];
    let source = InMemorySource::new(data);
    let reader = TiffReader::new(source);

    // Read 2 u16s starting at offset 2, skipping the 0xFF bytes
    let values = reader.read_u16_array_at(2, 2, Endian::Big).unwrap();
    assert_eq!(values, vec![0x1234, 0x5678]);
    assert_eq!(reader.position(), 0); // Position should be unchanged

    // Read 1 u32 starting at offset 2
    let value = reader.read_u32_array_at(2, 1, Endian::Big).unwrap();
    assert_eq!(value, vec![0x12345678]);
}

#[test]
fn test_u64_reading() {
    let bytes = [0x01, 0x02, 0x03, 0x04, 0x05, 0x06, 0x07, 0x08];
    assert_eq!(Endian::Little.read_u64(bytes), 0x0807060504030201);
    assert_eq!(Endian::Big.read_u64(bytes), 0x0102030405060708);
}

#[test]
fn test_remaining_bytes() {
    let data = create_test_data();
    let source = InMemorySource::new(data.clone());
    let mut reader = TiffReader::new(source);

    assert_eq!(reader.remaining(), data.len());
    reader.seek(8).unwrap();
    assert_eq!(reader.remaining(), data.len() - 8);
    reader.seek(data.len()).unwrap();
    assert_eq!(reader.remaining(), 0);
    assert!(reader.is_at_end());
}
