use redis_lite::parser::messages::RedisMessageType;
use redis_lite::parser::parse::RedisParseError;

#[test]
fn decode_valid_string() {
    let expected = RedisMessageType::SimpleString("Test".into());
    let input = "+Test\r\n";

    let result = RedisMessageType::decode(input.as_bytes()).unwrap();

    assert_eq!(expected, result.0);
}

#[test]
fn decode_empty_string() {
    let expected = RedisMessageType::SimpleString("".into());
    let input = "+\r\n";

    let result = RedisMessageType::decode(input.as_bytes()).unwrap();

    assert_eq!(expected, result.0);
}

#[test]
fn encode() {
    let input = RedisMessageType::SimpleString("Test".into());
    let expected = "+Test\r\n";

    assert_eq!(expected.as_bytes(), input.encode().as_slice())
}

#[test]
fn messages_decode_valid_string() {
    let expected = RedisMessageType::BulkString("Test".into());
    let input = "$4\r\nTest\r\nasdf";

    let result = RedisMessageType::decode(input.as_bytes()).unwrap();

    assert_eq!(expected, result.0);
    assert_eq!(10, result.1);
}

#[test]
fn messages_decode_empty_string() {
    let expected = RedisMessageType::BulkString("".into());
    let input = "$0\r\n\r\n";

    let result = RedisMessageType::decode(input.as_bytes()).unwrap();

    assert_eq!(expected, result.0)
}

#[test]
fn messages_encode() {
    let input = RedisMessageType::BulkString("Test".into());
    let expected = "$4\r\nTest\r\n";

    assert_eq!(expected.as_bytes(), input.encode().as_slice())
}

#[test]
fn decode_valid_string_positive_signed() {
    let expected = RedisMessageType::Integer(123);
    let input = ":+123\r\n";

    let result = RedisMessageType::decode(input.as_bytes()).unwrap();

    assert_eq!(expected, result.0);
}

#[test]
fn decode_valid_string_positive_unsigned() {
    let expected = RedisMessageType::Integer(13);
    let input = ":13\r\n";

    let result = RedisMessageType::decode(input.as_bytes()).unwrap();

    assert_eq!(expected, result.0);
}

#[test]
fn decode_valid_string_negative() {
    let expected = RedisMessageType::Integer(-23);
    let input = ":-23\r\n";

    let result = RedisMessageType::decode(input.as_bytes()).unwrap();

    assert_eq!(expected, result.0);
}

#[test]
fn encode_positive() {
    let input = RedisMessageType::Integer(123);
    let expected = ":123\r\n";

    assert_eq!(expected.as_bytes(), input.encode().as_slice());
}

#[test]
fn encode_negative() {
    let input = RedisMessageType::Integer(-3);
    let expected = ":-3\r\n";

    assert_eq!(expected.as_bytes(), input.encode().as_slice());
}

#[test]
fn decode_empty_array() {
    let expected = RedisMessageType::Array(vec![]);
    let input = "*0\r\n";

    let result = RedisMessageType::decode(input.as_bytes()).unwrap();

    assert_eq!(expected, result.0)
}

#[test]
fn decode_valid_multivalue_string() {
    let expected = RedisMessageType::Array(vec![
        RedisMessageType::Integer(123),
        RedisMessageType::Integer(-23),
        RedisMessageType::SimpleString("asdf test me here!".into()),
        RedisMessageType::BulkString("Imma test\r\ner here!".into()),
    ]);
    let input = "*4\r\n:123\r\n:-23\r\n+asdf test me here!\r\n$19\r\nImma test\r\ner here!\r\n";

    let result = RedisMessageType::decode(input.as_bytes()).unwrap();
    assert_eq!(expected, result.0);
}

#[test]
fn encode_simple_string() {
    let input = RedisMessageType::SimpleString("Test".into());
    let expected = "+Test\r\n".as_bytes().to_vec();

    assert_eq!(expected, input.encode())
}

fn sample_messages() -> Vec<RedisMessageType> {
    vec![
        RedisMessageType::SimpleString("OK".into()),
        RedisMessageType::Error("ERR bad".into()),
        RedisMessageType::Integer(0),
        RedisMessageType::Integer(i64::MIN),
        RedisMessageType::Integer(i64::MAX),
        RedisMessageType::BulkString(vec![0xff, 0x00, b'\r', b'\n', 0x80]),
        RedisMessageType::BulkString(vec![]),
        RedisMessageType::NullBulkString,
        RedisMessageType::Array(vec![]),
        RedisMessageType::Array(vec![
            RedisMessageType::Array(vec![RedisMessageType::Integer(-7)]),
            RedisMessageType::NullBulkString,
            RedisMessageType::BulkString("x".into()),
        ]),
    ]
}

#[test]
fn round_trip_of_each_kind() {
    for m in sample_messages() {
        let bytes = m.encode();
        let (decoded, used) = RedisMessageType::decode(&bytes).unwrap();
        assert_eq!(m, decoded);
        assert_eq!(bytes.len(), used);
    }
}

#[test]
fn trailing_bytes_are_not_consumed() {
    for m in sample_messages() {
        let mut bytes = m.encode();
        let len = bytes.len();
        bytes.extend_from_slice(b"*1\r\n$4\r\nPING\r\n");
        let (decoded, used) = RedisMessageType::decode(&bytes).unwrap();
        assert_eq!(m, decoded);
        assert_eq!(len, used);
    }
}

#[test]
fn encode_null_bulk_and_array() {
    assert_eq!(b"$-1\r\n".to_vec(), RedisMessageType::NullBulkString.encode());
    let m = RedisMessageType::Array(vec![
        RedisMessageType::BulkString("ECHO".into()),
        RedisMessageType::BulkString("hello".into()),
    ]);
    assert_eq!(b"*2\r\n$4\r\nECHO\r\n$5\r\nhello\r\n".to_vec(), m.encode());
    assert_eq!(b"-ERR x\r\n".to_vec(), RedisMessageType::Error("ERR x".into()).encode());
}

#[test]
fn decode_errors() {
    assert_eq!(Err(RedisParseError::NoStartingByte), RedisMessageType::decode(b""));
    assert_eq!(Err(RedisParseError::InvalidStartingByte), RedisMessageType::decode(b"?x\r\n"));
    assert_eq!(Err(RedisParseError::NotEnoughBytes), RedisMessageType::decode(b"+abc"));
    assert_eq!(Err(RedisParseError::NotEnoughBytes), RedisMessageType::decode(b"$3\r\nfo"));
    assert_eq!(Err(RedisParseError::InvalidFormat), RedisMessageType::decode(b"$2\r\nfoo\r\n"));
    assert_eq!(Err(RedisParseError::InvalidFormat), RedisMessageType::decode(b"$-5\r\n"));
    assert_eq!(Err(RedisParseError::InvalidNumber), RedisMessageType::decode(b":12a\r\n"));
    assert_eq!(Err(RedisParseError::InvalidNumber), RedisMessageType::decode(b":9223372036854775808\r\n"));
    assert_eq!(Err(RedisParseError::NotEnoughBytes), RedisMessageType::decode(b"*2\r\n+a\r\n"));
    assert_eq!(Err(RedisParseError::InvalidFormat), RedisMessageType::decode(b"*-2\r\n"));
}

#[test]
fn decode_null_bulk_string() {
    assert_eq!(Ok((RedisMessageType::NullBulkString, 5)), RedisMessageType::decode(b"$-1\r\n"));
}

#[test]
fn parse_error_replies() {
    let reply = RedisParseError::NotEnoughBytes.as_redis_type();
    assert_eq!(RedisMessageType::Error("An error occurred: NotEnoughBytes".into()), reply);
    let reply = RedisParseError::InvalidFormat.as_redis_type_with_additional_information("line 3");
    assert_eq!(RedisMessageType::Error("An error occurred: InvalidFormat (line 3)".into()), reply);
}
