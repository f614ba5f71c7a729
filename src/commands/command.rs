//! From a decoded request to a reply: the command name picks a handler, the
//! handler reads its arguments, then runs against the store.
use vstd::prelude::*;
use vstd::string::StringSliceAdditionalSpecFns;

use crate::commands::config::{config_reply, spec_parse_config, ActionModel, ConfigCommand};
use crate::commands::echo::EchoCommand;
use crate::commands::get::{get_reply, GetCommand};
use crate::commands::info::{info_text, InfoCommand};
use crate::commands::keys::{bulk_contents, matching_keys, KeysCommand};
use crate::commands::ping::PingCommand;
use crate::commands::psync::{fullresync_text, PsyncCommand};
use crate::commands::replconf::ReplConfCommand;
use crate::commands::set::{
    options_of, set_contents, set_contents_of, set_reply, set_reply_of, spec_set_options, SetCommand,
    SetOptions,
};
use crate::commands::traits::{arg_count_error_text, error_reply, views};
use crate::db::data_store::{after_get, DataStore, DbConfig};
use crate::parser::messages::{spec_decode, RedisMessageType, RespValue};
use crate::parser::numbers::parse_i64;
use crate::parser::parse::RedisParseError;
use crate::utils::bytes::{append, is_word, same_word, text};

verus! {

/// A command picked by its name, with its arguments not yet read.
pub enum UnparsedCommandType {
    Ping(Vec<RedisMessageType>),
    Echo(Vec<RedisMessageType>),
    SetValue(Vec<RedisMessageType>),
    Get(Vec<RedisMessageType>),
    Config(Vec<RedisMessageType>),
    Keys(Vec<RedisMessageType>),
    Info(Vec<RedisMessageType>),
    ReplConf(Vec<RedisMessageType>),
    Psync(Vec<RedisMessageType>),
}

/// A command whose arguments have been read.
pub enum ParsedCommandType {
    Ping(PingCommand),
    Echo(EchoCommand),
    SetValue(SetCommand),
    Get(GetCommand),
    Config(ConfigCommand),
    Keys(KeysCommand),
    Info(InfoCommand),
    ReplConf(ReplConfCommand),
    Psync(PsyncCommand),
}

/// `ERR unknown command '<name>'`.
pub open spec fn unknown_command_text(name: Seq<u8>) -> Seq<u8> {
    "ERR unknown command '".spec_bytes() + name + "'".spec_bytes()
}

/// The arguments that `c` holds.
pub open spec fn unparsed_args(c: UnparsedCommandType) -> Seq<RedisMessageType> {
    match c {
        UnparsedCommandType::Ping(a) => a@,
        UnparsedCommandType::Echo(a) => a@,
        UnparsedCommandType::SetValue(a) => a@,
        UnparsedCommandType::Get(a) => a@,
        UnparsedCommandType::Config(a) => a@,
        UnparsedCommandType::Keys(a) => a@,
        UnparsedCommandType::Info(a) => a@,
        UnparsedCommandType::ReplConf(a) => a@,
        UnparsedCommandType::Psync(a) => a@,
    }
}

/// The command that the name `n` picks, whatever its case, by its position
/// among PING, ECHO, SET, GET, CONFIG, KEYS, INFO, REPLCONF and PSYNC;
/// `None` for any other name.
pub open spec fn command_of(n: Seq<u8>) -> Option<int> {
    if same_word(n, "PING".spec_bytes()) {
        Some(0)
    } else if same_word(n, "ECHO".spec_bytes()) {
        Some(1)
    } else if same_word(n, "SET".spec_bytes()) {
        Some(2)
    } else if same_word(n, "GET".spec_bytes()) {
        Some(3)
    } else if same_word(n, "CONFIG".spec_bytes()) {
        Some(4)
    } else if same_word(n, "KEYS".spec_bytes()) {
        Some(5)
    } else if same_word(n, "INFO".spec_bytes()) {
        Some(6)
    } else if same_word(n, "REPLCONF".spec_bytes()) {
        Some(7)
    } else if same_word(n, "PSYNC".spec_bytes()) {
        Some(8)
    } else {
        None
    }
}

/// The position of the command of `c`, as [`command_of`] counts.
pub open spec fn command_index(c: UnparsedCommandType) -> int {
    match c {
        UnparsedCommandType::Ping(_) => 0,
        UnparsedCommandType::Echo(_) => 1,
        UnparsedCommandType::SetValue(_) => 2,
        UnparsedCommandType::Get(_) => 3,
        UnparsedCommandType::Config(_) => 4,
        UnparsedCommandType::Keys(_) => 5,
        UnparsedCommandType::Info(_) => 6,
        UnparsedCommandType::ReplConf(_) => 7,
        UnparsedCommandType::Psync(_) => 8,
    }
}

/// `n` names one of the commands.
pub open spec fn is_command_name(n: Seq<u8>) -> bool {
    command_of(n) is Some
}

/// A list of arguments with exactly `n` bulk strings.
pub open spec fn bulk_args(a: Seq<RespValue>, n: nat) -> bool {
    a.len() == n && forall|i: int| 0 <= i < n ==> #[trigger] a[i] is BulkString
}

/// The options that the arguments `a` of a `SET` give.
pub open spec fn set_options_of(a: Seq<RespValue>) -> SetOptions {
    match spec_set_options(a, 2, (None, None, false)) {
        Ok(o) => o,
        Err(_) => (None, None, false),
    }
}

/// The error reply that the parser of command `k` gives to the arguments
/// `a`, or `None` where it accepts them.
pub open spec fn args_error(k: int, a: Seq<RespValue>) -> Option<RespValue> {
    if k == 0 {
        if a.len() == 0 {
            None
        } else {
            Some(RespValue::Error(arg_count_error_text("ping".spec_bytes())))
        }
    } else if k == 1 {
        if bulk_args(a, 1) {
            None
        } else {
            Some(RespValue::Error(arg_count_error_text("echo".spec_bytes())))
        }
    } else if k == 2 {
        if a.len() < 2 || !(a[0] is BulkString) || !(a[1] is BulkString) {
            Some(RespValue::Error(arg_count_error_text("set".spec_bytes())))
        } else {
            match spec_set_options(a, 2, (None, None, false)) {
                Ok(_) => None,
                Err(e) => Some(e),
            }
        }
    } else if k == 3 {
        if bulk_args(a, 1) {
            None
        } else {
            Some(RespValue::Error(arg_count_error_text("get".spec_bytes())))
        }
    } else if k == 4 {
        match spec_parse_config(a) {
            Ok(_) => None,
            Err(e) => Some(e),
        }
    } else if k == 5 {
        if bulk_args(a, 1) {
            None
        } else {
            Some(RespValue::Error(arg_count_error_text("keys".spec_bytes())))
        }
    } else if k == 8 {
        if bulk_args(a, 2) {
            None
        } else {
            Some(RespValue::Error(arg_count_error_text("psync".spec_bytes())))
        }
    } else {
        None
    }
}

/// The error reply that the handler's parser gives to the arguments of
/// `c`, or `None` where it accepts them.
pub open spec fn parse_error(c: UnparsedCommandType) -> Option<RespValue> {
    args_error(command_index(c), views(unparsed_args(c)))
}

/// The handler `p` holds what the arguments `a` say.
pub open spec fn parsed_from(a: Seq<RespValue>, p: ParsedCommandType) -> bool {
    match p {
        ParsedCommandType::Echo(c) => c.echo_value@ == a[0]->BulkString_0,
        ParsedCommandType::Get(c) => c.key@ == a[0]->BulkString_0,
        ParsedCommandType::Keys(c) => c.pattern@ == a[0]->BulkString_0,
        ParsedCommandType::SetValue(c) => c.key@ == a[0]->BulkString_0 && c.value@
            == a[1]->BulkString_0 && options_of(&c) == set_options_of(a),
        ParsedCommandType::Config(c) => spec_parse_config(a) == Ok::<ActionModel, RespValue>(c.action@),
        ParsedCommandType::Psync(c) => c.replication_id@ == a[0]->BulkString_0 && c.replication_offset
            == (match parse_i64(a[1]->BulkString_0) {
            Some(n) => n,
            None => 0,
        }),
        _ => true,
    }
}

/// The reply to command `k` with the accepted arguments `a`, and the
/// entries after it, on the entries `c0` and the configuration `config`
/// (`KEYS`, whose reply has no set order, is left out).
pub open spec fn run_command(
    k: int,
    a: Seq<RespValue>,
    c0: Map<Seq<u8>, (Seq<u8>, Option<u64>)>,
    config: DbConfig,
    now: u64,
    unix_now: u64,
) -> (Result<RespValue, RespValue>, Map<Seq<u8>, (Seq<u8>, Option<u64>)>) {
    if k == 0 {
        (Ok(RespValue::SimpleString("PONG".spec_bytes())), c0)
    } else if k == 1 {
        (Ok(RespValue::BulkString(a[0]->BulkString_0)), c0)
    } else if k == 2 {
        let key = a[0]->BulkString_0;
        let o = set_options_of(a);
        (
            set_reply_of(key, o, c0, now),
            set_contents_of(key, a[1]->BulkString_0, o, c0, now, unix_now),
        )
    } else if k == 3 {
        let key = a[0]->BulkString_0;
        (Ok(get_reply(c0, key, now)), after_get(c0, key, now))
    } else if k == 4 {
        (
            match spec_parse_config(a) {
                Ok(action) => config_reply(action, config),
                Err(e) => Err(e),
            },
            c0,
        )
    } else if k == 6 {
        (Ok(RespValue::BulkString(info_text(config))), c0)
    } else if k == 7 {
        (Ok(RespValue::SimpleString("OK".spec_bytes())), c0)
    } else {
        (Ok(RespValue::SimpleString(fullresync_text(config))), c0)
    }
}

/// The reply, success or error alike.
pub open spec fn either(r: Result<RespValue, RespValue>) -> RespValue {
    match r {
        Ok(v) => v,
        Err(v) => v,
    }
}

/// `p` is the handler of the same command as `c`.
pub open spec fn same_command(c: UnparsedCommandType, p: ParsedCommandType) -> bool {
    match (c, p) {
        (UnparsedCommandType::Ping(_), ParsedCommandType::Ping(_)) => true,
        (UnparsedCommandType::Echo(_), ParsedCommandType::Echo(_)) => true,
        (UnparsedCommandType::SetValue(_), ParsedCommandType::SetValue(_)) => true,
        (UnparsedCommandType::Get(_), ParsedCommandType::Get(_)) => true,
        (UnparsedCommandType::Config(_), ParsedCommandType::Config(_)) => true,
        (UnparsedCommandType::Keys(_), ParsedCommandType::Keys(_)) => true,
        (UnparsedCommandType::Info(_), ParsedCommandType::Info(_)) => true,
        (UnparsedCommandType::ReplConf(_), ParsedCommandType::ReplConf(_)) => true,
        (UnparsedCommandType::Psync(_), ParsedCommandType::Psync(_)) => true,
        _ => false,
    }
}

impl UnparsedCommandType {
    /// Picks the handler named by the first argument, a bulk string read
    /// whatever its case; the other arguments go to the handler.
    pub fn new(args: Vec<RedisMessageType>) -> (r: Result<UnparsedCommandType, RedisMessageType>)
        ensures
            views(args@).len() == 0 ==> (r matches Err(e) && e@ == RespValue::Error(
                "ERR empty command".spec_bytes(),
            )),
            views(args@).len() > 0 && !(views(args@)[0] is BulkString) ==> (r matches Err(e) && e@
                == RespValue::Error("ERR command must be a bulk string".spec_bytes())),
            views(args@).len() > 0 && views(args@)[0] is BulkString ==> {
                let n = views(args@)[0]->BulkString_0;
                &&& command_of(n) matches Some(k) ==> (r matches Ok(c) && command_index(c) == k
                    && views(unparsed_args(c)) == views(args@).drop_first())
                &&& command_of(n) is None ==> (r matches Err(e) && e@ == RespValue::Error(
                    unknown_command_text(n),
                ))
            },
    {
        let ghost a = views(args@);
        let mut args = args;
        if args.len() == 0 {
            return Err(error_reply("ERR empty command"));
        }
        let first = args.remove(0);
        assert(a[0] == first@);
        assert(views(args@) =~= a.drop_first());
        let name = match first {
            RedisMessageType::BulkString(name) => name,
            _ => {
                return Err(error_reply("ERR command must be a bulk string"));
            },
        };
        let n = name.as_slice();
        if is_word(n, "PING") {
            Ok(UnparsedCommandType::Ping(args))
        } else if is_word(n, "ECHO") {
            Ok(UnparsedCommandType::Echo(args))
        } else if is_word(n, "SET") {
            Ok(UnparsedCommandType::SetValue(args))
        } else if is_word(n, "GET") {
            Ok(UnparsedCommandType::Get(args))
        } else if is_word(n, "CONFIG") {
            Ok(UnparsedCommandType::Config(args))
        } else if is_word(n, "KEYS") {
            Ok(UnparsedCommandType::Keys(args))
        } else if is_word(n, "INFO") {
            Ok(UnparsedCommandType::Info(args))
        } else if is_word(n, "REPLCONF") {
            Ok(UnparsedCommandType::ReplConf(args))
        } else if is_word(n, "PSYNC") {
            Ok(UnparsedCommandType::Psync(args))
        } else {
            let mut t = text("ERR unknown command '");
            append(&mut t, n);
            append(&mut t, "'".as_bytes());
            Err(RedisMessageType::Error(t))
        }
    }

    /// Reads the arguments with the handler's own parser; its error reply
    /// is passed on.
    pub fn parse(self) -> (r: Result<ParsedCommandType, RedisMessageType>)
        ensures
            match parse_error(self) {
                None => r matches Ok(p) && same_command(self, p) && parsed_from(
                    views(unparsed_args(self)),
                    p,
                ),
                Some(e) => r matches Err(m) && m@ == e,
            },
    {
        match self {
            UnparsedCommandType::Ping(a) => match PingCommand::parse(a) {
                Ok(c) => Ok(ParsedCommandType::Ping(c)),
                Err(e) => Err(e),
            },
            UnparsedCommandType::Echo(a) => match EchoCommand::parse(a) {
                Ok(c) => Ok(ParsedCommandType::Echo(c)),
                Err(e) => Err(e),
            },
            UnparsedCommandType::SetValue(a) => match SetCommand::parse(a) {
                Ok(c) => Ok(ParsedCommandType::SetValue(c)),
                Err(e) => Err(e),
            },
            UnparsedCommandType::Get(a) => match GetCommand::parse(a) {
                Ok(c) => Ok(ParsedCommandType::Get(c)),
                Err(e) => Err(e),
            },
            UnparsedCommandType::Config(a) => match ConfigCommand::parse(a) {
                Ok(c) => Ok(ParsedCommandType::Config(c)),
                Err(e) => Err(e),
            },
            UnparsedCommandType::Keys(a) => match KeysCommand::parse(a) {
                Ok(c) => Ok(ParsedCommandType::Keys(c)),
                Err(e) => Err(e),
            },
            UnparsedCommandType::Info(a) => match InfoCommand::parse(a) {
                Ok(c) => Ok(ParsedCommandType::Info(c)),
                Err(e) => Err(e),
            },
            UnparsedCommandType::ReplConf(a) => match ReplConfCommand::parse(a) {
                Ok(c) => Ok(ParsedCommandType::ReplConf(c)),
                Err(e) => Err(e),
            },
            UnparsedCommandType::Psync(a) => match PsyncCommand::parse(a) {
                Ok(c) => Ok(ParsedCommandType::Psync(c)),
                Err(e) => Err(e),
            },
        }
    }
}

/// `r` is the executable form of the reply `v`.
pub open spec fn replies(r: Result<RedisMessageType, RedisMessageType>, v: Result<RespValue, RespValue>) -> bool {
    match v {
        Ok(x) => r matches Ok(m) && m@ == x,
        Err(x) => r matches Err(m) && m@ == x,
    }
}

impl ParsedCommandType {
    /// Runs the command against `store` at monotonic time `now` and
    /// wall-clock time `unix_now`.
    pub fn execute(self, store: &mut DataStore, now: u64, unix_now: u64) -> (r: Result<
        RedisMessageType,
        RedisMessageType,
    >)
        ensures
            final(store).spec_config() == old(store).spec_config(),
            match self {
                ParsedCommandType::Ping(_) => replies(
                    r,
                    Ok(RespValue::SimpleString("PONG".spec_bytes())),
                ) && final(store).contents() == old(store).contents(),
                ParsedCommandType::Echo(c) => replies(r, Ok(RespValue::BulkString(c.echo_value@)))
                    && final(store).contents() == old(store).contents(),
                ParsedCommandType::SetValue(c) => replies(
                    r,
                    set_reply(&c, old(store).contents(), now),
                ) && final(store).contents() == set_contents(&c, old(store).contents(), now, unix_now),
                ParsedCommandType::Get(c) => replies(r, Ok(get_reply(old(store).contents(), c.key@, now)))
                    && final(store).contents() == after_get(old(store).contents(), c.key@, now),
                ParsedCommandType::Config(c) => replies(r, config_reply(c.action@, old(store).spec_config()))
                    && final(store).contents() == old(store).contents(),
                ParsedCommandType::Keys(c) => (r matches Ok(m) && m@ is Array && (forall|i: int|
                    0 <= i < m@->Array_0.len() ==> #[trigger] m@->Array_0[i] is BulkString)
                    && bulk_contents(m@->Array_0).to_set() == matching_keys(
                    old(store).contents(),
                    c.pattern@,
                    now,
                ) && bulk_contents(m@->Array_0).no_duplicates()) && final(store).contents() == old(
                    store,
                ).contents(),
                ParsedCommandType::Info(_) => replies(r, Ok(RespValue::BulkString(info_text(old(store).spec_config()))))
                    && final(store).contents() == old(store).contents(),
                ParsedCommandType::ReplConf(_) => replies(r, Ok(RespValue::SimpleString("OK".spec_bytes())))
                    && final(store).contents() == old(store).contents(),
                ParsedCommandType::Psync(_) => replies(r, Ok(RespValue::SimpleString(fullresync_text(old(store).spec_config()))))
                    && final(store).contents() == old(store).contents(),
            },
    {
        match self {
            ParsedCommandType::Ping(c) => c.execute(),
            ParsedCommandType::Echo(c) => c.execute(),
            ParsedCommandType::SetValue(c) => c.execute(store, now, unix_now),
            ParsedCommandType::Get(c) => c.execute(store, now),
            ParsedCommandType::Config(c) => c.execute(store.get_config()),
            ParsedCommandType::Keys(c) => c.execute(store, now),
            ParsedCommandType::Info(c) => c.execute(store.get_config()),
            ParsedCommandType::ReplConf(c) => c.execute(),
            ParsedCommandType::Psync(c) => c.execute(store.get_config()),
        }
    }
}

/// Decodes one request at the start of `message` and runs it. A framing
/// error is returned as such; everything else, command errors included, is
/// a reply, given with the number of bytes the request took.
pub fn process_message(message: &[u8], store: &mut DataStore, now: u64, unix_now: u64) -> (r: Result<
    (RedisMessageType, usize),
    RedisParseError,
>)
    ensures
        final(store).spec_config() == old(store).spec_config(),
        match spec_decode(message@) {
            Err(e) => r == Err::<(RedisMessageType, usize), RedisParseError>(e) && final(store).contents()
                == old(store).contents(),
            Ok((v, n)) => r matches Ok((m, used)) && used == n && match v {
                RespValue::Array(xs) => if xs.len() == 0 {
                    m@ == RespValue::Error("ERR empty command".spec_bytes()) && final(store).contents()
                        == old(store).contents()
                } else if !(xs[0] is BulkString) {
                    m@ == RespValue::Error("ERR command must be a bulk string".spec_bytes())
                        && final(store).contents() == old(store).contents()
                } else {
                    match command_of(xs[0]->BulkString_0) {
                        None => m@ == RespValue::Error(unknown_command_text(xs[0]->BulkString_0))
                            && final(store).contents() == old(store).contents(),
                        Some(k) => match args_error(k, xs.drop_first()) {
                            Some(e) => m@ == e && final(store).contents() == old(store).contents(),
                            None => if k == 5 {
                                &&& m@ is Array
                                &&& forall|i: int|
                                    0 <= i < m@->Array_0.len() ==> #[trigger] m@->Array_0[i] is BulkString
                                &&& bulk_contents(m@->Array_0).to_set() == matching_keys(
                                    old(store).contents(),
                                    xs[1]->BulkString_0,
                                    now,
                                )
                                &&& bulk_contents(m@->Array_0).no_duplicates()
                                &&& final(store).contents() == old(store).contents()
                            } else {
                                let out = run_command(
                                    k,
                                    xs.drop_first(),
                                    old(store).contents(),
                                    old(store).spec_config(),
                                    now,
                                    unix_now,
                                );
                                m@ == either(out.0) && final(store).contents() == out.1
                            },
                        },
                    }
                },
                _ => m@ == RespValue::Error("ERR expected an array of bulk strings".spec_bytes())
                    && final(store).contents() == old(store).contents(),
            },
        },
{
    let (request, consumed) = match RedisMessageType::decode(message) {
        Err(e) => {
            return Err(e);
        },
        Ok(x) => x,
    };
    let ghost v = request@;
    let items = match request {
        RedisMessageType::Array(items) => {
            assert(views(items@) =~= v->Array_0);
            items
        },
        _ => {
            return Ok((error_reply("ERR expected an array of bulk strings"), consumed));
        },
    };
    let command = match UnparsedCommandType::new(items) {
        Ok(c) => c,
        Err(e) => {
            return Ok((e, consumed));
        },
    };
    let parsed = match command.parse() {
        Ok(p) => p,
        Err(e) => {
            return Ok((e, consumed));
        },
    };
    match parsed.execute(store, now, unix_now) {
        Ok(reply) => Ok((reply, consumed)),
        Err(reply) => Ok((reply, consumed)),
    }
}

} // verus!
