use redis_lite::commands::command::process_message;
use redis_lite::commands::set::{ExpiryCondition, SetCommand, SetCondition};
use redis_lite::db::data_store::{init_db, DataStore, DbConfig};
use redis_lite::db::db_file::RdbFile;
use redis_lite::parser::messages::RedisMessageType;
use redis_lite::parser::parse::RedisParseError;

fn request(words: &[&str]) -> Vec<u8> {
    RedisMessageType::Array(
        words.iter().map(|w| RedisMessageType::BulkString(w.as_bytes().to_vec())).collect(),
    )
    .encode()
}

fn run(store: &mut DataStore, words: &[&str], now: u64) -> Vec<u8> {
    let bytes = request(words);
    let (reply, used) = process_message(&bytes, store, now, 1_700_000_000_000).unwrap();
    assert_eq!(bytes.len(), used);
    reply.encode()
}

fn config() -> DbConfig {
    DbConfig::new(b"/tmp/redis-files".to_vec(), b"dump.rdb".to_vec(), 6380, None)
}

#[test]
fn scenario_ping() {
    let mut store = init_db(config());
    let (reply, used) = process_message(b"*1\r\n$4\r\nPING\r\n", &mut store, 0, 0).unwrap();
    assert_eq!(14, used);
    assert_eq!(b"+PONG\r\n".to_vec(), reply.encode());
}

#[test]
fn scenario_echo() {
    let mut store = init_db(config());
    let (reply, _) = process_message(b"*2\r\n$4\r\nECHO\r\n$5\r\nhello\r\n", &mut store, 0, 0).unwrap();
    assert_eq!(b"$5\r\nhello\r\n".to_vec(), reply.encode());
}

#[test]
fn scenario_set_get() {
    let mut store = init_db(config());
    let (reply, _) =
        process_message(b"*3\r\n$3\r\nSET\r\n$3\r\nfoo\r\n$3\r\nbar\r\n", &mut store, 0, 0).unwrap();
    assert_eq!(b"+OK\r\n".to_vec(), reply.encode());
    let (reply, _) = process_message(b"*2\r\n$3\r\nGET\r\n$3\r\nfoo\r\n", &mut store, 0, 0).unwrap();
    assert_eq!(b"$3\r\nbar\r\n".to_vec(), reply.encode());
}

#[test]
fn scenario_px_expiry() {
    let mut store = init_db(config());
    assert_eq!(b"+OK\r\n".to_vec(), run(&mut store, &["SET", "foo", "bar", "PX", "50"], 1_000));
    assert_eq!(b"$3\r\nbar\r\n".to_vec(), run(&mut store, &["GET", "foo"], 1_030));
    assert_eq!(b"$-1\r\n".to_vec(), run(&mut store, &["GET", "foo"], 1_100));
}

#[test]
fn scenario_keys_prefix() {
    let mut store = init_db(config());
    run(&mut store, &["SET", "foo", "1"], 0);
    run(&mut store, &["SET", "foobar", "2"], 0);
    run(&mut store, &["SET", "baz", "3"], 0);
    let bytes = request(&["KEYS", "foo*"]);
    let (reply, _) = process_message(&bytes, &mut store, 0, 0).unwrap();
    let mut keys: Vec<Vec<u8>> = match reply {
        RedisMessageType::Array(items) => items
            .into_iter()
            .map(|item| match item {
                RedisMessageType::BulkString(b) => b,
                other => panic!("expected a bulk string, got {:?}", other),
            })
            .collect(),
        other => panic!("expected an array, got {:?}", other),
    };
    keys.sort();
    assert_eq!(vec![b"foo".to_vec(), b"foobar".to_vec()], keys);
    assert_eq!(b"*1\r\n$3\r\nbaz\r\n".to_vec(), run(&mut store, &["KEYS", "baz"], 0));
}

#[test]
fn scenario_rdb_load() {
    let file = vec![
        b'R', b'E', b'D', b'I', b'S', b'0', b'0', b'1', b'1',
        0xFA, 0x09, b'r', b'e', b'd', b'i', b's', b'-', b'v', b'e', b'r',
        0x05, b'7', b'.', b'2', b'.', b'0',
        0xFE, 0x00, 0xFB, 0x02, 0x01,
        0x00, 0x06, b'f', b'o', b'o', b'b', b'a', b'r', 0x06, b'b', b'a', b'z', b'q', b'u', b'x',
        0xFD, 0x52, 0xED, 0x2A, 0x66, 0x00, 0x03, b'b', b'a', b'z', 0x03, b'q', b'u', b'x',
        0xFF, 0, 0, 0, 0, 0, 0, 0, 0,
    ];
    let rdb = RdbFile::decode(&file).unwrap();
    assert_eq!(b"0011".to_vec(), rdb.header.version);
    assert_eq!(1, rdb.metadata.subsections.len());
    assert_eq!(b"7.2.0".to_vec(), rdb.metadata.subsections[0].value);
    // Loaded before the expiry of `baz` (unix seconds 0x662AED52).
    let unix_now = 0x662AED52u64 * 1000 - 60_000;
    let mut store = DataStore::with_database(config(), rdb.get_database(), 0, unix_now);
    let (reply, _) =
        process_message(b"*2\r\n$3\r\nGET\r\n$6\r\nfoobar\r\n", &mut store, 0, unix_now).unwrap();
    assert_eq!(b"$6\r\nbazqux\r\n".to_vec(), reply.encode());
    assert_eq!(b"$3\r\nqux\r\n".to_vec(), run(&mut store, &["GET", "baz"], 59_999));
    assert_eq!(b"$-1\r\n".to_vec(), run(&mut store, &["GET", "baz"], 60_000));
}

#[test]
fn rdb_entries_already_expired_at_load() {
    let file = vec![
        b'R', b'E', b'D', b'I', b'S', b'0', b'0', b'1', b'1',
        0xFE, 0x00, 0xFB, 0x01, 0x01,
        0xFC, 0x10, 0x27, 0, 0, 0, 0, 0, 0, 0x00, 0x01, b'k', 0x01, b'v',
        0xFF,
    ];
    let rdb = RdbFile::decode(&file).unwrap();
    let mut store = DataStore::with_database(config(), rdb.get_database(), 500, 20_000);
    assert_eq!(b"$-1\r\n".to_vec(), run(&mut store, &["GET", "k"], 500));
}

#[test]
fn set_existence_conditions() {
    let mut store = init_db(config());
    assert_eq!(b"+OK\r\n".to_vec(), run(&mut store, &["SET", "k", "1", "NX"], 0));
    assert_eq!(
        b"-ERR not set: the key exists and NX was given\r\n".to_vec(),
        run(&mut store, &["SET", "k", "2", "nx"], 0)
    );
    assert_eq!(b"$1\r\n1\r\n".to_vec(), run(&mut store, &["GET", "k"], 0));
    assert_eq!(
        b"-ERR not set: the key does not exist and XX was given\r\n".to_vec(),
        run(&mut store, &["SET", "other", "2", "XX"], 0)
    );
    assert_eq!(b"$-1\r\n".to_vec(), run(&mut store, &["GET", "other"], 0));
    assert_eq!(b"+OK\r\n".to_vec(), run(&mut store, &["SET", "k", "3", "XX"], 0));
    assert_eq!(b"$1\r\n3\r\n".to_vec(), run(&mut store, &["GET", "k"], 0));
}

#[test]
fn set_get_option_returns_old_value() {
    let mut store = init_db(config());
    assert_eq!(b"$-1\r\n".to_vec(), run(&mut store, &["SET", "k", "1", "GET"], 0));
    assert_eq!(b"$1\r\n1\r\n".to_vec(), run(&mut store, &["SET", "k", "2", "GET"], 0));
    assert_eq!(b"$1\r\n2\r\n".to_vec(), run(&mut store, &["GET", "k"], 0));
}

#[test]
fn set_keepttl_and_expiry_forms() {
    let mut store = init_db(config());
    run(&mut store, &["SET", "k", "1", "EX", "2"], 1_000);
    run(&mut store, &["SET", "k", "2", "KEEPTTL"], 1_500);
    assert_eq!(b"$1\r\n2\r\n".to_vec(), run(&mut store, &["GET", "k"], 2_999));
    assert_eq!(b"$-1\r\n".to_vec(), run(&mut store, &["GET", "k"], 3_000));
    // PXAT is wall-clock: 1_700_000_000_000 is the wall time `run` passes.
    run(&mut store, &["SET", "a", "x", "PXAT", "1700000000100"], 0);
    assert_eq!(b"$1\r\nx\r\n".to_vec(), run(&mut store, &["GET", "a"], 99));
    assert_eq!(b"$-1\r\n".to_vec(), run(&mut store, &["GET", "a"], 100));
}

#[test]
fn set_option_errors() {
    let mut store = init_db(config());
    assert_eq!(b"-ERR syntax error\r\n".to_vec(), run(&mut store, &["SET", "k", "v", "NX", "XX"], 0));
    assert_eq!(b"-ERR syntax error\r\n".to_vec(), run(&mut store, &["SET", "k", "v", "EX", "1", "PX", "5"], 0));
    assert_eq!(b"-ERR syntax error\r\n".to_vec(), run(&mut store, &["SET", "k", "v", "BOGUS"], 0));
    assert_eq!(
        b"-ERR value is not an integer or out of range\r\n".to_vec(),
        run(&mut store, &["SET", "k", "v", "EX", "ten"], 0)
    );
    assert_eq!(
        b"-ERR wrong number of arguments for 'set' command\r\n".to_vec(),
        run(&mut store, &["SET", "k", "v", "PX"], 0)
    );
    assert_eq!(
        b"-ERR wrong number of arguments for 'set' command\r\n".to_vec(),
        run(&mut store, &["SET", "k"], 0)
    );
    assert_eq!(b"$-1\r\n".to_vec(), run(&mut store, &["GET", "k"], 0));
}

#[test]
fn set_command_fields() {
    let cmd = SetCommand::new(b"k".to_vec(), b"v".to_vec(), Some(SetCondition::NX), Some(ExpiryCondition::PX(5)), true);
    assert_eq!(b"k".to_vec(), cmd.key);
    assert_eq!(Some(ExpiryCondition::PX(5)), cmd.expiry_condition);
}

#[test]
fn argument_errors_and_unknown_commands() {
    let mut store = init_db(config());
    assert_eq!(
        b"-ERR wrong number of arguments for 'ping' command\r\n".to_vec(),
        run(&mut store, &["PING", "x"], 0)
    );
    assert_eq!(
        b"-ERR wrong number of arguments for 'echo' command\r\n".to_vec(),
        run(&mut store, &["ECHO"], 0)
    );
    assert_eq!(
        b"-ERR wrong number of arguments for 'get' command\r\n".to_vec(),
        run(&mut store, &["GET", "a", "b"], 0)
    );
    assert_eq!(b"-ERR unknown command 'FLY'\r\n".to_vec(), run(&mut store, &["FLY"], 0));
    let (reply, _) = process_message(b":1\r\n", &mut store, 0, 0).unwrap();
    assert_eq!(RedisMessageType::Error(b"ERR expected an array of bulk strings".to_vec()), reply);
    let (reply, _) = process_message(b"*1\r\n:1\r\n", &mut store, 0, 0).unwrap();
    assert_eq!(RedisMessageType::Error(b"ERR command must be a bulk string".to_vec()), reply);
}

#[test]
fn framing_errors_are_not_replies() {
    let mut store = init_db(config());
    assert_eq!(Err(RedisParseError::NotEnoughBytes), process_message(b"*1\r\n$4\r\nPI", &mut store, 0, 0));
    assert_eq!(Err(RedisParseError::NoStartingByte), process_message(b"", &mut store, 0, 0));
}

#[test]
fn config_get_and_help() {
    let mut store = init_db(config());
    assert_eq!(
        b"*2\r\n$3\r\ndir\r\n$16\r\n/tmp/redis-files\r\n".to_vec(),
        run(&mut store, &["CONFIG", "GET", "dir"], 0)
    );
    assert_eq!(
        b"*4\r\n$10\r\ndbfilename\r\n$8\r\ndump.rdb\r\n$3\r\ndir\r\n$16\r\n/tmp/redis-files\r\n".to_vec(),
        run(&mut store, &["config", "get", "DBFILENAME", "Dir"], 0)
    );
    let help = run(&mut store, &["CONFIG", "HELP"], 0);
    assert!(help.starts_with(b"*7\r\n"));
    assert_eq!(
        b"-ERR Unknown option or number of arguments for CONFIG GET - 'port'\r\n".to_vec(),
        run(&mut store, &["CONFIG", "GET", "port"], 0)
    );
    assert_eq!(b"-ERR CONFIG SET is not supported\r\n".to_vec(), run(&mut store, &["CONFIG", "SET", "dir", "/x"], 0));
    assert_eq!(
        b"-ERR unknown subcommand 'FOO'. Try CONFIG HELP.\r\n".to_vec(),
        run(&mut store, &["CONFIG", "FOO"], 0)
    );
}

#[test]
fn info_replconf_psync() {
    let mut store = init_db(config());
    let info = run(&mut store, &["INFO", "replication"], 0);
    let text = String::from_utf8(info).unwrap();
    assert!(text.contains("role:master\n"));
    assert!(text.contains("master_replid:8371b4fb1155b71f4a04d3e1bc3e18c4a990aeeb\n"));
    assert!(text.contains("master_repl_offset:0\n"));
    assert_eq!(b"+OK\r\n".to_vec(), run(&mut store, &["REPLCONF", "listening-port", "6380"], 0));
    assert_eq!(
        b"+FULLRESYNC 8371b4fb1155b71f4a04d3e1bc3e18c4a990aeeb 0\r\n".to_vec(),
        run(&mut store, &["PSYNC", "?", "-1"], 0)
    );
}

#[test]
fn echo_of_non_utf8_bytes() {
    let mut store = init_db(config());
    let req = RedisMessageType::Array(vec![
        RedisMessageType::BulkString(b"ECHO".to_vec()),
        RedisMessageType::BulkString(vec![0xff, 0xfe, 0x00]),
    ])
    .encode();
    let (reply, _) = process_message(&req, &mut store, 0, 0).unwrap();
    assert_eq!(RedisMessageType::BulkString(vec![0xff, 0xfe, 0x00]), reply);
}

#[test]
fn set_expiry_amounts_cover_u64() {
    let mut store = init_db(config());
    assert_eq!(b"+OK\r\n".to_vec(), run(&mut store, &["SET", "k", "v", "EX", "18446744073709551615"], 0));
    assert_eq!(b"+OK\r\n".to_vec(), run(&mut store, &["SET", "k", "v", "PX", "+7"], 0));
    assert_eq!(
        b"-ERR value is not an integer or out of range\r\n".to_vec(),
        run(&mut store, &["SET", "k", "v", "PX", "18446744073709551616"], 0)
    );
    assert_eq!(
        b"-ERR value is not an integer or out of range\r\n".to_vec(),
        run(&mut store, &["SET", "k", "v", "EX", "-1"], 0)
    );
}
