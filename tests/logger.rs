use bytes::BytesMut;
use redis_lite::parser::messages::u8_to_char;
use redis_lite::utils::logger::generate_hex_log;

#[test]
fn test_vec_u8_printable() {
    let data = vec![65, 66, 67]; // "ABC"
    let result = generate_hex_log(&data);
    assert_eq!(result, "ABC");
}

#[test]
fn test_vec_u8_non_printable() {
    let data = vec![0, 1, 2, 65]; // non-printable + 'A'
    let result = generate_hex_log(&data);
    assert_eq!(result, "...A");
}

#[test]
fn test_slice_with_space() {
    let data: &[u8] = b"Hello World";
    let result = generate_hex_log(data);
    assert_eq!(result, "Hello World");
}

#[test]
fn test_bytesmut_with_mixed() {
    let data = BytesMut::from(&[42, 49, 13, 10, 36, 52, 13, 10, 112, 105, 110, 103][..]);
    let result = generate_hex_log(&data);
    assert_eq!(result, "*1..$4..ping");
}

#[test]
fn test_empty() {
    let data: Vec<u8> = vec![];
    let result = generate_hex_log(&data);
    assert_eq!(result, "");
}

#[test]
fn test_all_non_printable() {
    let data = vec![0, 1, 2, 3, 4, 5];
    let result = generate_hex_log(&data);
    assert_eq!(result, "......");
}

#[test]
fn test_mixed_ascii_and_non_ascii() {
    let data = vec![65, 200, 66, 10]; // 'A', non-ASCII, 'B', LF
    let result = generate_hex_log(&data);
    assert_eq!(result, "A.B.");
}

#[test]
fn ascii_bytes_to_chars() {
    assert_eq!(Some('a'), u8_to_char(b'a'));
    assert_eq!(Some('\r'), u8_to_char(13));
    assert_eq!(None, u8_to_char(200));
}
