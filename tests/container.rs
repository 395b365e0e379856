use telltale_decode::byte_reading::{read_fixed_string, skip_envelope, D3DName, VersionHeader};
use telltale_decode::checksum_mapping::ChecksumMap;
use telltale_decode::cursor::Cursor;
use telltale_decode::error::DecodeError;

fn u32le(v: u32) -> Vec<u8> {
    v.to_le_bytes().to_vec()
}

#[test]
fn name_length_beyond_header_length_is_reinterpreted() {
    // header length 3; the name length field holds "abc\0" = 0x00636261 > 3,
    // so the text is the 3 bytes that follow the header length field
    let mut bytes = u32le(3);
    bytes.extend_from_slice(b"abc\0");
    bytes.extend_from_slice(b"zzzz");
    let mut cursor = Cursor::new(bytes);
    let name = D3DName::parse(&mut cursor).unwrap();
    assert_eq!(name.to_string(), "abc");
    assert_eq!(cursor.position(), 7);
}

#[test]
fn name_with_consistent_lengths() {
    let mut bytes = u32le(12);
    bytes.extend(u32le(4));
    bytes.extend_from_slice(b"mesh");
    let mut cursor = Cursor::new(bytes);
    let name = D3DName::parse(&mut cursor).unwrap();
    assert_eq!(name.0, "mesh");
    assert_eq!(cursor.position(), 12);
}

#[test]
fn fixed_string_reads() {
    let mut cursor = Cursor::new(b"hello".to_vec());
    assert_eq!(read_fixed_string(&mut cursor, 2).unwrap(), "he");
    assert_eq!(cursor.position(), 2);
}

#[test]
fn fixed_string_invalid_text() {
    let mut cursor = Cursor::new(vec![0xFF, 0xFE]);
    assert!(matches!(read_fixed_string(&mut cursor, 2), Err(DecodeError::InvalidText)));
}

#[test]
fn fixed_string_past_end() {
    let mut cursor = Cursor::new(vec![0x41]);
    assert!(matches!(
        read_fixed_string(&mut cursor, 2),
        Err(DecodeError::UnexpectedEnd { offset: 0 })
    ));
}

#[test]
fn version_tags() {
    let mut cursor = Cursor::new(b"5VSM6VSMNIBMxxxx".to_vec());
    assert_eq!(VersionHeader::parse(&mut cursor).unwrap(), VersionHeader::MSV5);
    assert_eq!(VersionHeader::parse(&mut cursor).unwrap(), VersionHeader::MSV6);
    assert_eq!(VersionHeader::parse(&mut cursor).unwrap(), VersionHeader::MBIN);
    assert_eq!(
        VersionHeader::parse(&mut cursor).unwrap(),
        VersionHeader::Unknown(u32::from_le_bytes(*b"xxxx"))
    );
}

#[test]
fn envelope_skips_parameter_table() {
    let mut bytes = b"6VSM".to_vec();
    bytes.extend(u32le(1000));
    bytes.extend(vec![0; 8]);
    bytes.extend(u32le(2));
    bytes.extend(vec![0; 24]);
    bytes.push(0x7A);
    let mut cursor = Cursor::new(bytes);
    skip_envelope(&mut cursor).unwrap();
    assert_eq!(cursor.position(), 44);
    assert_eq!(cursor.read_u8().unwrap(), 0x7A);
}

#[test]
fn envelope_rejects_legacy_tag() {
    let mut cursor = Cursor::new(b"NIBM0000".to_vec());
    assert!(matches!(
        skip_envelope(&mut cursor),
        Err(DecodeError::UnsupportedFormat { magic: 1296189774 })
    ));
}

#[test]
fn cursor_reads_little_endian() {
    let mut cursor = Cursor::new(vec![1, 2, 3, 4, 5, 6, 7, 8, 0xFF]);
    assert_eq!(cursor.read_u16().unwrap(), 0x0201);
    cursor.seek_to(0);
    assert_eq!(cursor.read_u32().unwrap(), 0x04030201);
    cursor.seek_to(0);
    assert_eq!(cursor.read_u64().unwrap(), 0x0807060504030201);
    assert_eq!(cursor.read_i8().unwrap(), -1);
    assert!(matches!(cursor.read_u8(), Err(DecodeError::UnexpectedEnd { offset: 9 })));
}

#[test]
fn cursor_seeks() {
    let mut cursor = Cursor::new(vec![0; 4]);
    assert!(matches!(cursor.seek_by(-1), Err(DecodeError::SeekOutOfRange { offset: 0 })));
    cursor.seek_by(10).unwrap();
    assert_eq!(cursor.position(), 10);
    cursor.seek_by(-7).unwrap();
    assert_eq!(cursor.position(), 3);
    assert!(cursor.skip(2).is_err());
    assert!(cursor.skip(1).is_ok());
}

#[test]
fn checksum_lookup() {
    // the CRC-64/ECMA-182 check value of "123456789"
    let map = ChecksumMap::new(&vec!["123456789".to_string(), "other".to_string()]);
    assert_eq!(map.get_mapping(0x6c40df5f0b497347), Some("123456789".to_string()));
    assert_eq!(map.get_mapping(0x1234), None);
}
