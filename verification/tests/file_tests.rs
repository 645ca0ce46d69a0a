use tiff_core::{Compression, Endian, TiffError, TiffFile};

/// One 12-byte little-endian directory entry.
fn le_entry(tag: u16, field_type: u16, count: u32, value: u32) -> Vec<u8> {
    let mut out = Vec::new();
    out.extend_from_slice(&tag.to_le_bytes());
    out.extend_from_slice(&field_type.to_le_bytes());
    out.extend_from_slice(&count.to_le_bytes());
    out.extend_from_slice(&value.to_le_bytes());
    out
}

/// A little-endian file: header, one directory at offset 8 with the given
/// entries and a zero next-offset, then `tail` (payload bytes that entries
/// may point into).
fn le_file(entries: &[(u16, u16, u32, u32)], tail: &[u8]) -> Vec<u8> {
    let mut data = vec![0x49, 0x49, 0x2A, 0x00, 0x08, 0x00, 0x00, 0x00];
    data.extend_from_slice(&(entries.len() as u16).to_le_bytes());
    for &(tag, field_type, count, value) in entries {
        data.extend_from_slice(&le_entry(tag, field_type, count, value));
    }
    data.extend_from_slice(&0u32.to_le_bytes());
    data.extend_from_slice(tail);
    data
}

/// The offset where `tail` begins in a file built by `le_file`.
fn tail_offset(n_entries: usize) -> u32 {
    (8 + 2 + 12 * n_entries + 4) as u32
}

#[test]
fn test_single_empty_directory() {
    // Header at 0, one directory with zero entries and next-offset 0 at 8.
    let data = le_file(&[], &[]);
    let tiff = TiffFile::from_bytes(data).unwrap();
    assert_eq!(tiff.image_count(), 1);
    assert_eq!(tiff.endianness(), Endian::Little);
    let ifd = tiff.main_ifd().unwrap();
    assert!(ifd.is_empty());
    assert_eq!(ifd.len(), 0);
    assert_eq!(ifd.next_ifd_offset, 0);
}

#[test]
fn test_long_inline_rule() {
    // Long with count 1: 4 payload bytes, stored inline in the value slot.
    let data = le_file(&[(256, 4, 1, 1920), (257, 4, 1, 1080)], &[]);
    let tiff = TiffFile::from_bytes(data).unwrap();
    let ifd = tiff.main_ifd().unwrap();
    let endian = tiff.endianness();
    assert_eq!(ifd.image_width(&tiff.reader, endian).unwrap(), Some(1920));
    assert_eq!(ifd.image_height(&tiff.reader, endian).unwrap(), Some(1080));
}

#[test]
fn test_long_offset_rule() {
    // Long with count 2: 8 payload bytes, so the value slot is an offset.
    let off = tail_offset(1);
    let mut tail = Vec::new();
    tail.extend_from_slice(&100u32.to_le_bytes());
    tail.extend_from_slice(&200u32.to_le_bytes());
    let data = le_file(&[(273, 4, 2, off)], &tail);
    let tiff = TiffFile::from_bytes(data).unwrap();
    let ifd = tiff.main_ifd().unwrap();
    let strip_offsets = ifd.strip_offsets(&tiff.reader, tiff.endianness()).unwrap();
    assert_eq!(strip_offsets, Some(vec![100, 200]));
}

#[test]
fn test_rational_decode() {
    // An unsigned rational decodes to its (numerator, denominator) pair,
    // and a pair with a zero denominator yields no value.
    let off = tail_offset(2);
    let mut tail = Vec::new();
    tail.extend_from_slice(&22u32.to_le_bytes());
    tail.extend_from_slice(&7u32.to_le_bytes());
    tail.extend_from_slice(&5u32.to_le_bytes());
    tail.extend_from_slice(&0u32.to_le_bytes());
    let data = le_file(&[(282, 5, 1, off), (283, 5, 1, off + 8)], &tail);
    let tiff = TiffFile::from_bytes(data).unwrap();
    let ifd = tiff.main_ifd().unwrap();
    let endian = tiff.endianness();

    let (num, den) = ifd
        .x_resolution_rational(&tiff.reader, endian)
        .unwrap()
        .unwrap();
    assert_eq!((num, den), (22, 7));
    let ratio = num as f64 / den as f64;
    assert!((ratio - 3.142857).abs() < 0.001);

    // Denominator 0 is representable but not reducible to a finite ratio.
    assert_eq!(ifd.y_resolution_rational(&tiff.reader, endian).unwrap(), None);
}

#[test]
fn test_ascii_tag_decoding() {
    // A null-terminated string drops the terminator; one without a
    // terminator decodes using all its bytes.
    let off = tail_offset(2);
    let with_null = b"Hello\0";
    let without_null = b"World";
    let mut tail = Vec::new();
    tail.extend_from_slice(with_null);
    tail.extend_from_slice(without_null);
    let data = le_file(
        &[
            (270, 2, with_null.len() as u32, off),
            (305, 2, without_null.len() as u32, off + with_null.len() as u32),
        ],
        &tail,
    );
    let tiff = TiffFile::from_bytes(data).unwrap();
    let ifd = tiff.main_ifd().unwrap();
    let endian = tiff.endianness();
    assert_eq!(
        ifd.image_description(&tiff.reader, endian).unwrap(),
        Some("Hello".to_string())
    );
    assert_eq!(
        ifd.software(&tiff.reader, endian).unwrap(),
        Some("World".to_string())
    );
}

#[test]
fn test_ascii_invalid_utf8() {
    // 0xFF 0xFE is not valid UTF-8, so a text tag holding it is an error.
    let off = tail_offset(1);
    let tail = [0xFF, 0xFE, 0xFD, 0xFC, 0xFB];
    let data = le_file(&[(270, 2, 5, off)], &tail);
    let tiff = TiffFile::from_bytes(data).unwrap();
    let ifd = tiff.main_ifd().unwrap();
    let result = ifd.image_description(&tiff.reader, tiff.endianness());
    match result {
        Err(TiffError::InvalidString { context }) => assert_eq!(context, "ASCII tag"),
        _ => panic!("Expected InvalidString error"),
    }
}

#[test]
fn test_inline_ascii() {
    // A two-byte string payload is packed left-aligned into the value slot.
    let slot = u32::from_le_bytes([0x41, 0x00, 0x00, 0x00]); // "A\0"
    let data = le_file(&[(270, 2, 2, slot)], &[]);
    let tiff = TiffFile::from_bytes(data).unwrap();
    let ifd = tiff.main_ifd().unwrap();
    assert_eq!(
        ifd.image_description(&tiff.reader, tiff.endianness()).unwrap(),
        Some("A".to_string())
    );
}

#[test]
fn test_invalid_field_type() {
    let data = le_file(&[(256, 99, 1, 0)], &[]);
    let tiff = TiffFile::from_bytes(data).unwrap();
    let ifd = tiff.main_ifd().unwrap();
    let result = ifd.get_tag_value(256, &tiff.reader, tiff.endianness());
    match result {
        Err(TiffError::InvalidFieldType { found }) => assert_eq!(found, 99),
        _ => panic!("Expected InvalidFieldType error"),
    }
}

#[test]
fn test_payload_out_of_bounds() {
    // The value slot points past the end of the data.
    let data = le_file(&[(273, 4, 2, 10_000)], &[]);
    let tiff = TiffFile::from_bytes(data).unwrap();
    let ifd = tiff.main_ifd().unwrap();
    let result = ifd.strip_offsets(&tiff.reader, tiff.endianness());
    match result {
        Err(TiffError::OutOfBounds { index, max }) => {
            assert_eq!(index, 10_008);
            assert_eq!(max, tiff.reader.len());
        }
        _ => panic!("Expected OutOfBounds error"),
    }
}

#[test]
fn test_truncated_file_prefixes() {
    // Any prefix cut inside the header or the directory fails cleanly.
    let data = le_file(&[(256, 4, 1, 1920)], &[]);
    let structure_len = 8 + 2 + 12 + 4;
    assert_eq!(data.len(), structure_len);
    for n in 0..structure_len {
        let result = TiffFile::from_bytes(data[..n].to_vec());
        match result {
            Err(TiffError::OutOfBounds { .. }) | Err(TiffError::InsufficientData { .. }) => {}
            Err(other) => panic!(
                "Expected OutOfBounds or InsufficientData for prefix of {n} bytes, got {:?}",
                other
            ),
            Ok(_) => panic!("Expected an error for prefix of {n} bytes"),
        }
    }
}

#[test]
fn test_cyclic_chain_detected() {
    // A directory whose next-offset points back at itself must not loop
    // forever: the bounded walk reports a malformed file.
    let mut data = vec![0x49, 0x49, 0x2A, 0x00, 0x08, 0x00, 0x00, 0x00];
    data.extend_from_slice(&0u16.to_le_bytes());
    data.extend_from_slice(&8u32.to_le_bytes()); // next IFD offset: itself
    let result = TiffFile::from_bytes(data);
    match result {
        Err(TiffError::MalformedFile { reason }) => {
            assert_eq!(reason, "IFD chain exceeds maximum length")
        }
        _ => panic!("Expected MalformedFile error"),
    }
}

#[test]
fn test_multi_directory_chain() {
    // Two directories: the first links to the second, the second ends the
    // chain.
    let mut data = vec![0x49, 0x49, 0x2A, 0x00, 0x08, 0x00, 0x00, 0x00];
    // First IFD at 8: zero entries, next at 14.
    data.extend_from_slice(&0u16.to_le_bytes());
    data.extend_from_slice(&14u32.to_le_bytes());
    // Second IFD at 14: one inline width entry, next 0.
    data.extend_from_slice(&1u16.to_le_bytes());
    data.extend_from_slice(&le_entry(256, 4, 1, 640));
    data.extend_from_slice(&0u32.to_le_bytes());
    let tiff = TiffFile::from_bytes(data).unwrap();
    assert_eq!(tiff.image_count(), 2);
    assert!(tiff.get_ifd(0).is_some());
    assert!(tiff.get_ifd(2).is_none());
    let second = tiff.get_ifd(1).unwrap();
    assert_eq!(
        second.image_width(&tiff.reader, tiff.endianness()).unwrap(),
        Some(640)
    );
    let infos = tiff.all_image_info().unwrap();
    assert_eq!(infos.len(), 2);
    assert_eq!(infos[1].width, 640);
}

#[test]
fn test_is_valid_file() {
    // Width, height and both strip tags make a structurally valid image.
    let valid = le_file(
        &[
            (256, 4, 1, 640),
            (257, 4, 1, 480),
            (273, 4, 1, 1000),
            (279, 4, 1, 100),
        ],
        &[],
    );
    let tiff = TiffFile::from_bytes(valid).unwrap();
    assert_eq!(tiff.is_valid().unwrap(), true);

    // Without the strip tags the image has no data layout.
    let invalid = le_file(&[(256, 4, 1, 640), (257, 4, 1, 480)], &[]);
    let tiff = TiffFile::from_bytes(invalid).unwrap();
    assert_eq!(tiff.is_valid().unwrap(), false);

    // A file with no directories at all is not valid.
    let empty = vec![0x49, 0x49, 0x2A, 0x00, 0x00, 0x00, 0x00, 0x00];
    let tiff = TiffFile::from_bytes(empty).unwrap();
    assert_eq!(tiff.image_count(), 0);
    assert_eq!(tiff.is_valid().unwrap(), false);
}

#[test]
fn test_summary_defaults() {
    // Samples default to 1, bit depth to one bit per sample, compression to
    // none, when the tags are absent.
    let data = le_file(&[(256, 4, 1, 640), (257, 4, 1, 480)], &[]);
    let tiff = TiffFile::from_bytes(data).unwrap();
    let summary = tiff.main_image_info().unwrap().unwrap();
    assert_eq!(summary.width, 640);
    assert_eq!(summary.height, 480);
    assert_eq!(summary.samples_per_pixel, 1);
    assert_eq!(summary.bits_per_sample, vec![1]);
    assert_eq!(summary.compression, Compression::Uncompressed);
    assert_eq!(summary.photometric_interpretation, None);
    assert!(!summary.is_tiled);
}

#[test]
fn test_short_array_decoding() {
    // Two 16-bit values fit in the four-byte slot: inline storage.
    let slot = u32::from_le_bytes([8, 0, 8, 0]); // shorts [8, 8]
    let data = le_file(&[(258, 3, 2, slot)], &[]);
    let tiff = TiffFile::from_bytes(data).unwrap();
    let ifd = tiff.main_ifd().unwrap();
    let bits = ifd.bits_per_sample(&tiff.reader, tiff.endianness()).unwrap();
    assert_eq!(bits, Some(vec![8, 8]));
}

#[test]
fn test_big_endian_file() {
    // The same structure in big-endian byte order.
    let mut data = vec![0x4D, 0x4D, 0x00, 0x2A, 0x00, 0x00, 0x00, 0x08];
    data.extend_from_slice(&1u16.to_be_bytes());
    data.extend_from_slice(&256u16.to_be_bytes());
    data.extend_from_slice(&4u16.to_be_bytes());
    data.extend_from_slice(&1u32.to_be_bytes());
    data.extend_from_slice(&1920u32.to_be_bytes());
    data.extend_from_slice(&0u32.to_be_bytes());
    let tiff = TiffFile::from_bytes(data).unwrap();
    assert_eq!(tiff.endianness(), Endian::Big);
    let ifd = tiff.main_ifd().unwrap();
    assert_eq!(
        ifd.image_width(&tiff.reader, tiff.endianness()).unwrap(),
        Some(1920)
    );
}

#[test]
fn test_duplicate_tags_first_wins() {
    // Duplicate tag IDs are permitted; lookup returns the first match.
    let data = le_file(&[(256, 4, 1, 111), (256, 4, 1, 222)], &[]);
    let tiff = TiffFile::from_bytes(data).unwrap();
    let ifd = tiff.main_ifd().unwrap();
    assert_eq!(
        ifd.image_width(&tiff.reader, tiff.endianness()).unwrap(),
        Some(111)
    );
}
