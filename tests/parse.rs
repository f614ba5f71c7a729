use redis_lite::parser::parse::{
    decode_hex, parse_array, parse_bulk_string, RedisParseError, RedisParseResult, RedisType,
};

#[test]
fn test_parse_bulk_string_single_element() {
    let raw = "$3\r\nfoo\r\n".as_bytes();

    let result = parse_bulk_string(raw.to_vec());
    let expected: RedisParseResult =
        Ok((RedisType::BulkString("foo".as_bytes().to_vec()), "".as_bytes().to_vec()));

    assert_eq!(result, expected);
}

#[test]
fn test_parse_bulk_string_multiple_elements() {
    let raw = "$3\r\nfoo\r\n".as_bytes();

    let result = parse_bulk_string(raw.to_vec());
    let expected: RedisParseResult =
        Ok((RedisType::BulkString("foo".as_bytes().to_vec()), "".as_bytes().to_vec()));

    assert_eq!(result, expected);
}

#[test]
fn test_parse_bulk_string_not_enough_bytes() {
    let raw = "$3\r\nfoo".as_bytes();

    let result = parse_bulk_string(raw.to_vec());
    let expected: RedisParseResult = Err(RedisParseError::NotEnoughBytes);

    assert_eq!(result, expected);
}

#[test]
fn test_parse_bulk_string_invalid_length() {
    let raw = "$30\r\nfoo\r\n".as_bytes();

    let result = parse_bulk_string(raw.to_vec());
    let expected: RedisParseResult = Err(RedisParseError::NotEnoughBytes);

    assert_eq!(result, expected);
}

#[test]
fn test_parse_bulk_string_invalid_length_parse() {
    let raw = "$#0\r\nfoo\r\n".as_bytes().to_vec();

    let result = parse_bulk_string(raw);
    let expected: RedisParseResult = Err("d".parse::<usize>().err().unwrap().into()); // mock parse int error

    assert_eq!(result, expected);
}

#[test]
fn test_parse_bulk_string_empty() {
    let raw = "$0\r\n\r\n".as_bytes().to_vec();

    let result = parse_bulk_string(raw);
    let expected: RedisParseResult =
        Ok((RedisType::BulkString("".as_bytes().to_vec()), "".as_bytes().to_vec()));
    assert_eq!(result, expected);
}

#[test]
fn test_parse_bulk_string_missing_second_part() {
    let raw = "$0\r\n".as_bytes().to_vec();

    let result = parse_bulk_string(raw);
    let expected: RedisParseResult = Err(RedisParseError::NotEnoughBytes);
    assert_eq!(result, expected);
}

#[test]
fn test_parse_null_bulk_string() {
    let raw = "$-1\r\n".as_bytes().to_vec();

    let result = parse_bulk_string(raw);
    let expected: RedisParseResult = Ok((RedisType::NullBulkString, "".as_bytes().to_vec()));
    assert_eq!(result, expected);
}

#[test]
fn test_parse_simple_string_array() {
    let raw = "*2\r\n+Hi There\r\n+World!\r\n".as_bytes().to_vec();

    let result = parse_array(raw);
    let expected: RedisParseResult = Ok((
        RedisType::Array(vec![
            RedisType::SimpleString("Hi There".as_bytes().to_vec()),
            RedisType::SimpleString("World!".as_bytes().to_vec()),
        ]),
        "".as_bytes().to_vec(),
    ));

    assert_eq!(expected, result);
}

#[test]
fn test_parse_simple_string_array_not_enough_bytes() {
    let raw = "*2\r\n+Hi There\r\n+World!".as_bytes().to_vec();

    let result = parse_array(raw);
    let expected: RedisParseResult = Err(RedisParseError::NotEnoughBytes);

    assert_eq!(expected, result);
}

#[test]
fn test_parse_simple_string_array_not_enough_bytes_2() {
    let raw = "*2\r\n+Hi There+World!\r\n".as_bytes().to_vec();

    let result = parse_array(raw);
    let expected: RedisParseResult = Err(RedisParseError::InvalidFormat);

    assert_eq!(expected, result);
}

#[test]
fn test_parse_invalid_starting_byte_array() {
    let raw = "*1\r\n1".as_bytes().to_vec();

    let result = parse_array(raw);
    let expected: RedisParseResult = Err(RedisParseError::InvalidStartingByte);
    assert_eq!(expected, result);
}

#[test]
fn test_parse_malformed_data_array() {
    let raw = "*1\r\n$-5\r\nhi\r\n".as_bytes().to_vec();

    let result = parse_array(raw);
    let expected: RedisParseResult = Err(RedisParseError::InvalidFormat);
    assert_eq!(expected, result);
}

#[test]
fn test_parse_malformed_data_2_array() {
    let raw = "*1\r\n$50\r\nhi\r\n".as_bytes().to_vec();

    let result = parse_array(raw);
    let expected: RedisParseResult = Err(RedisParseError::NotEnoughBytes);
    assert_eq!(expected, result);
}

#[test]
fn test_parse_empty_array() {
    let raw = "*0\r\n".as_bytes().to_vec();

    let result = parse_array(raw);
    let expected: RedisParseResult = Ok((RedisType::Array(vec![]), "".as_bytes().to_vec()));
    assert_eq!(expected, result);
}

#[test]
fn test_parse_malformed_array_data_array() {
    let raw = "*5\r\n".as_bytes().to_vec();

    let result = parse_array(raw);
    let expected: RedisParseResult = Err(RedisParseError::InvalidFormat);
    assert_eq!(expected, result);
}

#[test]
fn test_parse_bulk_string_array() {
    let raw = "*4\r\n$4\r\necho\r\n$2\r\nhi\r\n$5\r\nthere\r\n$6\r\nworld!\r\n".as_bytes().to_vec();

    let result: RedisType = parse_array(raw).unwrap().0;
    let expected: RedisType = RedisType::Array(vec![
        RedisType::BulkString("echo".as_bytes().to_vec()),
        RedisType::BulkString("hi".as_bytes().to_vec()),
        RedisType::BulkString("there".as_bytes().to_vec()),
        RedisType::BulkString("world!".as_bytes().to_vec()),
    ]);
    assert_eq!(expected, result);
}

#[test]
fn test_parse_bulk_string_array_2() {
    let raw = vec![
        42, 52, 13, 10, 36, 52, 13, 10, 101, 99, 104, 111, 13, 10, 36, 50, 13, 10, 104, 105, 13,
        10, 36, 53, 13, 10, 116, 104, 101, 114, 101, 13, 10, 36, 54, 13, 10, 119, 111, 114, 108,
        100, 33, 13, 10,
    ];

    let result: RedisType = RedisType::deserilize(raw).unwrap().0;
    let expected: RedisType = RedisType::Array(vec![
        RedisType::BulkString("echo".as_bytes().to_vec()),
        RedisType::BulkString("hi".as_bytes().to_vec()),
        RedisType::BulkString("there".as_bytes().to_vec()),
        RedisType::BulkString("world!".as_bytes().to_vec()),
    ]);
    assert_eq!(expected, result);
}

#[test]
fn resp3_scalars_and_rest() {
    assert_eq!(
        Ok((RedisType::Integer(b"-42".to_vec()), b"+x".to_vec())),
        RedisType::deserilize(b":-42\r\n+x".to_vec())
    );
    assert_eq!(Err(RedisParseError::InvalidNumber), RedisType::from_str(":4x\r\n"));
    assert_eq!(Ok((RedisType::Boolean(b"t".to_vec()), vec![])), RedisType::from_str("#t\r\n"));
    assert_eq!(Err(RedisParseError::InvalidFormat), RedisType::from_str("#x\r\n"));
    assert_eq!(Ok((RedisType::Null, vec![])), RedisType::from_str("_\r\n"));
    assert_eq!(Err(RedisParseError::InvalidFormat), RedisType::from_str("_\r\n+a\r\n"));
    assert_eq!(Ok((RedisType::BigNumber(b"123456789012345678901234567890".to_vec()), vec![])),
        RedisType::from_str("(123456789012345678901234567890\r\n"));
    assert_eq!(Ok((RedisType::SimpleError(b"ERR".to_vec()), vec![])), RedisType::from_str("-ERR\r\n"));
    assert_eq!(Err(RedisParseError::NoStartingByte), RedisType::from_vec_u8(vec![]));
    assert_eq!(Err(RedisParseError::InvalidStartingByte), RedisType::from_str("!x\r\n"));
}

#[test]
fn resp3_push_and_builders() {
    assert_eq!(
        Ok((RedisType::Push(vec![RedisType::SimpleString(b"a".to_vec())]), vec![])),
        RedisType::from_str(">1\r\n+a\r\n")
    );
    assert_eq!(
        Ok((
            RedisType::Array(vec![
                RedisType::BulkString(b"PING".to_vec()),
                RedisType::BulkString(b"x".to_vec()),
            ]),
            vec![]
        )),
        RedisType::array_bulk_string_from_vec_str(vec!["PING", "x"])
    );
    assert_eq!(
        Ok((RedisType::BulkString(b"role:master\nid:1\n".to_vec()), vec![])),
        RedisType::bulk_string_from_vec_str(vec!["role:master", "id:1"])
    );
    assert_eq!(
        RedisType::SimpleError(b"ERR nope".to_vec()),
        RedisType::simple_error_from_string("ERR nope".to_string())
    );
}

#[test]
fn resp3_serialize() {
    let value = RedisType::Array(vec![
        RedisType::Integer(b"7".to_vec()),
        RedisType::BulkString(b"hi".to_vec()),
        RedisType::NullBulkString,
        RedisType::Null,
        RedisType::Push(vec![RedisType::Boolean(b"f".to_vec())]),
    ]);
    let mut out = Vec::new();
    value.serilize(&mut out);
    assert_eq!(b"*5\r\n:7\r\n$2\r\nhi\r\n$-1\r\n_\r\n>1\r\n#f\r\n".to_vec(), out);
    let mut out = Vec::new();
    RedisType::RDBFile(b"REDIS".to_vec()).serilize(&mut out);
    assert_eq!(b"$5\r\nREDIS".to_vec(), out);
}

#[test]
fn hex_strings() {
    assert_eq!(vec![0x52, 0x45, 0xde, 0xAD], decode_hex("5245deAD"));
    assert_eq!(vec![0x0f], decode_hex("0f1"));
    assert!(decode_hex("").is_empty());
}

#[test]
fn parse_array_ignores_its_tag_byte() {
    let expected: RedisParseResult =
        Ok((RedisType::Array(vec![RedisType::SimpleString(b"a".to_vec())]), b"x".to_vec()));
    assert_eq!(expected, parse_array(b">1\r\n+a\r\nx".to_vec()));
}

#[test]
fn resp3_serialize_then_deserialize() {
    let values = vec![
        RedisType::SimpleString(b"OK".to_vec()),
        RedisType::SimpleError(b"ERR x".to_vec()),
        RedisType::Integer(b"-12".to_vec()),
        RedisType::Boolean(b"t".to_vec()),
        RedisType::BigNumber(b"123456789012345678901234567890".to_vec()),
        RedisType::BulkString(vec![0xff, b'\r', b'\n', 0x00]),
        RedisType::NullBulkString,
        RedisType::Array(vec![
            RedisType::Push(vec![RedisType::Integer(b"7".to_vec())]),
            RedisType::BulkString(vec![]),
        ]),
    ];
    for value in values {
        let mut bytes = Vec::new();
        value.serilize(&mut bytes);
        bytes.extend_from_slice(b"tail");
        let (back, rest) = RedisType::deserilize(bytes).unwrap();
        assert_eq!(value, back);
        assert_eq!(b"tail".to_vec(), rest);
    }
}
