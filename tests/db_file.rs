use std::time::{Duration, UNIX_EPOCH};

use redis_lite::db::db_file::{
    parse_length_encoding, Database, DatabaseSubSection, DatabaseSubSectionHeader, Header,
    KeyValueDataUnit, MetadataSubSection, RdbError, RdbFile,
};

#[test]
fn test_load_full_rdb_file() {
    let input = vec![
        82, 69, 68, 73, 83, 48, 48, 49, 49,
        250,
        9, 114, 101, 100, 105, 115, 45, 118, 101, 114,
        5, 55, 46, 50, 46, 48,
        250,
        10, 114, 101, 100, 105, 115, 45, 98, 105, 116, 115,
        192, 64,
        0xFE, 0x00, 0xFB, 0x02, 0x01, 0x00, 0x06, 0x66, 0x6F, 0x6F, 0x62, 0x61, 0x72, 0x06,
        0x62, 0x61, 0x7A, 0x71, 0x75, 0x78, 0xFD, 0x52, 0xED, 0x2A, 0x66, 0x00, 0x03, 0x62,
        0x61, 0x7A, 0x03, 0x71, 0x75, 0x78,
        // eof
        0x00
    ];

    let result = RdbFile::decode(&input).unwrap();

    assert_eq!(2, result.metadata.subsections.len());
    // The integer-encoded value of `redis-bits` reads as its decimal text.
    assert_eq!("64".as_bytes(), result.metadata.subsections[1].value.as_slice());
    assert_eq!(1, result.db.subsections.len());
    assert_eq!("foobar".as_bytes(), result.db.subsections[0].key_value_data_units[0].key.as_slice())
}

#[test]
fn test_parse_length_encoding_0b00() {
    let (length, bytes_parsed) = parse_length_encoding(vec![0x0F].as_slice()).unwrap();

    assert_eq!(1, bytes_parsed);
    assert_eq!(15, length);
}

#[test]
fn test_parse_length_encoding_0b01() {
    let (length, bytes_parsed) = parse_length_encoding(vec![0x42, 0xBC].as_slice()).unwrap();

    assert_eq!(2, bytes_parsed);
    assert_eq!(700, length);
}

#[test]
fn test_parse_length_encoding_0b10() {
    let (length, bytes_parsed) =
        parse_length_encoding(vec![0x80, 0x00, 0x00, 0x42, 0x68].as_slice()).unwrap();

    assert_eq!(5, bytes_parsed);
    assert_eq!(17000, length);
}

#[test]
fn test_parse_string_length_encoding_0xC0() {
    let (length, bytes_parsed) = parse_length_encoding(vec![0xC0, 0x7B].as_slice()).unwrap();

    assert_eq!(2, bytes_parsed);
    assert_eq!(123, length);
}

#[test]
fn test_parse_string_length_encoding_0xC1() {
    let (length, bytes_parsed) = parse_length_encoding(vec![0xC1, 0x39, 0x30].as_slice()).unwrap();

    assert_eq!(3, bytes_parsed);
    assert_eq!(12345, length);
}

#[test]
fn test_parse_string_length_encoding_0xC2() {
    let (length, bytes_parsed) =
        parse_length_encoding(vec![0xC2, 0x87, 0xD6, 0x12, 00].as_slice()).unwrap();

    assert_eq!(5, bytes_parsed);
    assert_eq!(1234567, length);
}

#[test]
#[should_panic]
fn test_parse_string_length_encoding_0xC3() {
    let _result = parse_length_encoding(vec![0xC3].as_slice()).unwrap();
}

#[test]
fn lzf_strings_are_refused() {
    assert_eq!(Err(RdbError::UnsupportedEncoding), parse_length_encoding(&[0xC3]));
    assert_eq!(Err(RdbError::MissingBytes), parse_length_encoding(&[]));
    assert_eq!(Err(RdbError::MissingBytes), parse_length_encoding(&[0x80, 0x00]));
}

#[test]
fn test_decode_header() {
    let header = vec![0x52, 0x45, 0x44, 0x49, 0x53, 0x30, 0x30, 0x31, 0x31];

    let header = Header::decode(&header).unwrap();

    assert_eq!("REDIS".as_bytes(), header.magic_string.as_slice());
    assert_eq!("0011".as_bytes(), header.version.as_slice())
}

#[test]
fn header_errors() {
    assert_eq!(Err(RdbError::InvalidMagic), Header::decode(b"REDIX0011"));
    assert_eq!(Err(RdbError::InvalidHeaderLength), Header::decode(b"REDIS001"));
}

#[test]
fn metadata_pair_must_start_with_marker() {
    assert_eq!(Err(RdbError::UnexpectedByte), MetadataSubSection::decode(&[0xFF]));
}

#[test]
fn test_parse_database_no_key_value_data_but_two_subsections() {
    let hex_value: Vec<u8> = vec![
        0xFE, 0x00, 0xFB, 0x00, 0x00, 0xFE, 0x01, 0xFB, 0x00, 0x00, 0xDE, 0xAD, 0xBE, 0xEF,
    ];

    let (database, parsed_bytes) = Database::decode(&hex_value).unwrap();

    assert_eq!(10, parsed_bytes);

    assert_eq!(2, database.subsections.len());
    assert_eq!(0, database.subsections[0].header.index);
    assert_eq!(0, database.subsections[0].header.hash_table_size);
    assert_eq!(0, database.subsections[0].header.expiry_hash_table_size);
    assert_eq!(1, database.subsections[1].header.index);
    assert_eq!(0, database.subsections[1].header.hash_table_size);
    assert_eq!(0, database.subsections[1].header.expiry_hash_table_size);
}

#[test]
fn db_sub_section_parsing_full_sub_section() {
    let target_time = UNIX_EPOCH + Duration::from_secs(1714089298); // value from bytes 1 to 5 in le
    let input: Vec<u8> = vec![
        0xFE, 0x00, 0xFB, 0x02, 0x01, 0x00, 0x06, 0x66, 0x6F, 0x6F, 0x62, 0x61, 0x72, 0x06,
        0x62, 0x61, 0x7A, 0x71, 0x75, 0x78, 0xFD, 0x52, 0xED, 0x2A, 0x66, 0x00, 0x03, 0x62,
        0x61, 0x7A, 0x03, 0x71, 0x75, 0x78,
    ];

    let (subsection, parsed_bytes) = DatabaseSubSection::decode(&input).unwrap();

    assert_eq!(34, parsed_bytes);

    assert_eq!(0, subsection.header.index);
    assert_eq!(2, subsection.header.hash_table_size);
    assert_eq!(1, subsection.header.expiry_hash_table_size);
    assert_eq!(2, subsection.key_value_data_units.len());

    assert_eq!("foobar".as_bytes(), subsection.key_value_data_units.get(0).unwrap().key.as_slice());
    assert_eq!("bazqux".as_bytes(), subsection.key_value_data_units.get(0).unwrap().value.as_slice());
    assert!(subsection.key_value_data_units.get(0).unwrap().expiry.is_none());

    assert_eq!("baz".as_bytes(), subsection.key_value_data_units.get(1).unwrap().key.as_slice());
    assert_eq!("qux".as_bytes(), subsection.key_value_data_units.get(1).unwrap().value.as_slice());
    assert!(subsection.key_value_data_units.get(1).unwrap().expiry.is_some());
    assert_eq!(
        target_time,
        UNIX_EPOCH
            + Duration::from_millis(subsection.key_value_data_units.get(1).unwrap().expiry.unwrap())
    );
}

#[test]
fn db_sub_section_parsing_no_key_value_data() {
    let input: Vec<u8> = vec![0xFE, 0x01, 0xFB, 0x00, 0x00];

    let (subsection, parsed_bytes) = DatabaseSubSection::decode(&input).unwrap();

    assert_eq!(5, parsed_bytes);

    assert_eq!(1, subsection.header.index);
    assert_eq!(0, subsection.header.hash_table_size);
    assert_eq!(0, subsection.header.expiry_hash_table_size);
    assert_eq!(0, subsection.key_value_data_units.len());
}

#[test]
fn db_header_parsing_header_1() {
    let hex_value: Vec<u8> = vec![0xFE, 0x00, 0xFB, 0x03, 0x02];

    let (header, bytes_parsed) = DatabaseSubSectionHeader::decode(&hex_value).unwrap();

    assert_eq!(5, bytes_parsed);
    assert_eq!(0, header.index);
    assert_eq!(3, header.hash_table_size);
    assert_eq!(2, header.expiry_hash_table_size);
}

#[test]
fn db_header_parsing_header_2() {
    let hex_value: Vec<u8> = vec![0xFE, 0x0F, 0xFB, 0x80, 0x72, 0xE7, 0x07, 0x8F, 0x02];

    let (header, bytes_parsed) = DatabaseSubSectionHeader::decode(&hex_value).unwrap();

    assert_eq!(9, bytes_parsed);
    assert_eq!(15, header.index);
    assert_eq!(0x72E7078F, header.hash_table_size);
    assert_eq!(2, header.expiry_hash_table_size);
}

#[test]
fn db_header_needs_table_marker() {
    assert_eq!(Err(RdbError::UnexpectedByte), DatabaseSubSectionHeader::decode(&[0xFE, 0x00, 0xFA, 0x00, 0x00]));
    assert_eq!(Err(RdbError::UnexpectedByte), DatabaseSubSectionHeader::decode(&[0xFA]));
}

#[test]
fn test_decode_no_expiry() {
    let input: Vec<u8> = vec![
        0x00, 0x06, 0x66, 0x6F, 0x6F, 0x62, 0x61, 0x72, 0x06, 0x62, 0x61, 0x7A, 0x71, 0x75, 0x78,
    ];

    let (key_value_data, bytes_parsed) = KeyValueDataUnit::decode(&input).unwrap();

    assert_eq!(15, bytes_parsed);
    assert_eq!("foobar".as_bytes(), key_value_data.key.as_slice());
    assert_eq!("bazqux".as_bytes(), key_value_data.value.as_slice());
    assert!(key_value_data.expiry.is_none());
}

#[test]
fn test_decode_expiry_milliseconds() {
    let target_time = UNIX_EPOCH + Duration::from_millis(1713824559637); // value from bytes 1 to 9 in le
    let input: Vec<u8> = vec![
        0xFC, 0x15, 0x72, 0xE7, 0x07, 0x8F, 0x01, 0x00, 0x00, 0x00, 0x03, 0x66, 0x6F, 0x6F, 0x03,
        0x62, 0x61, 0x72,
    ];

    let (key_value_data, bytes_parsed) = KeyValueDataUnit::decode(&input).unwrap();

    assert_eq!(18, bytes_parsed);
    assert_eq!("foo".as_bytes(), key_value_data.key.as_slice());
    assert_eq!("bar".as_bytes(), key_value_data.value.as_slice());
    assert!(key_value_data.expiry.is_some());
    assert_eq!(target_time, UNIX_EPOCH + Duration::from_millis(key_value_data.expiry.unwrap()));
}

#[test]
fn test_decode_expiry_seconds() {
    let target_time = UNIX_EPOCH + Duration::from_secs(1714089298); // value from bytes 1 to 5 in le
    let input: Vec<u8> = vec![
        0xFD, 0x52, 0xED, 0x2A, 0x66, 0x00, 0x03, 0x62, 0x61, 0x7A, 0x03, 0x71, 0x75, 0x78,
    ];

    let (key_value_data, bytes_parsed) = KeyValueDataUnit::decode(&input).unwrap();

    assert_eq!(14, bytes_parsed);
    assert_eq!("baz".as_bytes(), key_value_data.key.as_slice());
    assert_eq!("qux".as_bytes(), key_value_data.value.as_slice());
    assert!(key_value_data.expiry.is_some());
    assert_eq!(target_time, UNIX_EPOCH + Duration::from_millis(key_value_data.expiry.unwrap()));
}

#[test]
fn unsupported_value_type_is_refused() {
    assert_eq!(Err(RdbError::UnsupportedValueType), KeyValueDataUnit::decode(&[0x01, 0x01, 0x61, 0x01, 0x62]));
}

#[test]
fn shortest_length_encodings_read_back() {
    for n in [0usize, 1, 63, 64, 700, 16383, 16384, 17000, 0x72E7078F, u32::MAX as usize] {
        let bytes: Vec<u8> = if n < 64 {
            vec![n as u8]
        } else if n < 0x4000 {
            vec![0x40 | (n >> 8) as u8, n as u8]
        } else {
            let b = (n as u32).to_be_bytes();
            vec![0x80, b[0], b[1], b[2], b[3]]
        };
        let mut padded = bytes.clone();
        padded.push(0xAA);
        assert_eq!(Ok((n, bytes.len())), parse_length_encoding(&padded));
    }
}

#[test]
fn keys_and_values_must_be_utf8() {
    assert_eq!(
        Err(RdbError::InvalidUtf8),
        KeyValueDataUnit::decode(&[0x00, 0x01, 0xFF, 0x01, b'v'])
    );
    assert_eq!(
        Err(RdbError::InvalidUtf8),
        MetadataSubSection::decode(&[0xFA, 0x01, b'k', 0x02, 0xC3, 0x28])
    );
    let (unit, used) = KeyValueDataUnit::decode(&[0x00, 0x02, 0xC3, 0xA9, 0x01, b'v']).unwrap();
    assert_eq!("é".as_bytes(), unit.key.as_slice());
    assert_eq!(6, used);
}

#[test]
fn header_version_must_be_utf8() {
    assert_eq!(
        Err(RdbError::InvalidUtf8),
        Header::decode(&[0x52, 0x45, 0x44, 0x49, 0x53, 0xFF, 0xFF, 0xFF, 0xFF])
    );
}
