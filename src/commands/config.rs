//! `CONFIG GET|SET|HELP|REWRITE|RESETSTAT ...`. `GET` replies with name/value
//! pairs of the configuration; `HELP` lists the subcommands; the others are
//! not supported and reply with an error.
use vstd::prelude::*;
use vstd::string::StringSliceAdditionalSpecFns;

use crate::commands::traits::{arg_count_error, arg_count_error_text, bulk_value, views};
use crate::db::data_store::DbConfig;
use crate::parser::messages::{RedisMessageType, RespValue};
use crate::utils::bytes::{append, copy_bytes, is_word, same_word, text};

verus! {

/// A configuration parameter that `CONFIG` knows.
#[derive(Debug, Clone, Copy, PartialEq, Eq, Structural)]
pub enum ConfigItem {
    Dir,
    DbFilename,
}

/// What a `CONFIG` command asks for.
pub enum Action {
    Get(Vec<ConfigItem>),
    Assign((ConfigItem, Vec<u8>)),
    Help,
    Rewrite,
    ResetStat,
}

/// The value of an [`Action`].
pub enum ActionModel {
    Get(Seq<ConfigItem>),
    Assign(ConfigItem, Seq<u8>),
    Help,
    Rewrite,
    ResetStat,
}

impl View for Action {
    type V = ActionModel;

    open spec fn view(&self) -> ActionModel {
        match self {
            Action::Get(items) => ActionModel::Get(items@),
            Action::Assign((item, value)) => ActionModel::Assign(*item, value@),
            Action::Help => ActionModel::Help,
            Action::Rewrite => ActionModel::Rewrite,
            Action::ResetStat => ActionModel::ResetStat,
        }
    }
}

pub struct ConfigCommand {
    pub action: Action,
}

/// The parameter that `name` stands for, whatever its case.
pub open spec fn config_item(name: Seq<u8>) -> Option<ConfigItem> {
    if same_word(name, "DIR".spec_bytes()) {
        Some(ConfigItem::Dir)
    } else if same_word(name, "DBFILENAME".spec_bytes()) {
        Some(ConfigItem::DbFilename)
    } else {
        None
    }
}

/// `ERR Unknown option or number of arguments for CONFIG <sub> - '<name>'`.
pub open spec fn unknown_item_text(sub: Seq<u8>, name: Seq<u8>) -> Seq<u8> {
    "ERR Unknown option or number of arguments for CONFIG ".spec_bytes() + sub + " - '".spec_bytes()
        + name + "'".spec_bytes()
}

/// The parameters named by the arguments of `CONFIG GET`, or the reply to
/// the first argument that names none.
pub open spec fn spec_get_items(rest: Seq<RespValue>) -> Result<Seq<ConfigItem>, RespValue>
    decreases rest.len(),
{
    if rest.len() == 0 {
        Ok(Seq::empty())
    } else if !(rest[0] is BulkString) {
        Err(RespValue::Error(arg_count_error_text("config".spec_bytes())))
    } else {
        match config_item(rest[0]->BulkString_0) {
            None => Err(
                RespValue::Error(unknown_item_text("GET".spec_bytes(), rest[0]->BulkString_0)),
            ),
            Some(item) => match spec_get_items(rest.drop_first()) {
                Ok(items) => Ok(seq![item] + items),
                Err(e) => Err(e),
            },
        }
    }
}

/// What a `CONFIG` command with the arguments `a` asks for, or the error
/// reply.
pub open spec fn spec_parse_config(a: Seq<RespValue>) -> Result<ActionModel, RespValue> {
    if a.len() == 0 || !(a[0] is BulkString) {
        Err(RespValue::Error(arg_count_error_text("config".spec_bytes())))
    } else {
        let sub = a[0]->BulkString_0;
        let rest = a.drop_first();
        if same_word(sub, "HELP".spec_bytes()) {
            Ok(ActionModel::Help)
        } else if same_word(sub, "REWRITE".spec_bytes()) {
            Ok(ActionModel::Rewrite)
        } else if same_word(sub, "RESETSTAT".spec_bytes()) {
            Ok(ActionModel::ResetStat)
        } else if same_word(sub, "GET".spec_bytes()) {
            match spec_get_items(rest) {
                Ok(items) => Ok(ActionModel::Get(items)),
                Err(e) => Err(e),
            }
        } else if same_word(sub, "SET".spec_bytes()) {
            if rest.len() != 2 || !(rest[0] is BulkString) || !(rest[1] is BulkString) {
                Err(RespValue::Error(arg_count_error_text("config".spec_bytes())))
            } else {
                match config_item(rest[0]->BulkString_0) {
                    None => Err(
                        RespValue::Error(
                            unknown_item_text("SET".spec_bytes(), rest[0]->BulkString_0),
                        ),
                    ),
                    Some(item) => Ok(ActionModel::Assign(item, rest[1]->BulkString_0)),
                }
            }
        } else {
            Err(
                RespValue::Error(
                    "ERR unknown subcommand '".spec_bytes() + sub
                        + "'. Try CONFIG HELP.".spec_bytes(),
                ),
            )
        }
    }
}

/// The name and value pair of `item` in `config`.
pub open spec fn item_pair(item: ConfigItem, config: DbConfig) -> Seq<RespValue> {
    match item {
        ConfigItem::Dir => seq![
            RespValue::BulkString("dir".spec_bytes()),
            RespValue::BulkString(config.db_dir@),
        ],
        ConfigItem::DbFilename => seq![
            RespValue::BulkString("dbfilename".spec_bytes()),
            RespValue::BulkString(config.db_filename@),
        ],
    }
}

/// The name and value pairs of `items`, in order.
pub open spec fn item_pairs(items: Seq<ConfigItem>, config: DbConfig) -> Seq<RespValue>
    decreases items.len(),
{
    if items.len() == 0 {
        Seq::empty()
    } else {
        item_pairs(items.drop_last(), config) + item_pair(items.last(), config)
    }
}

/// The lines of `CONFIG HELP`.
pub open spec fn help_lines() -> Seq<RespValue> {
    seq![
        RespValue::BulkString("CONFIG <subcommand> [<arg> [value] [opt] ...]. Subcommands are:".spec_bytes()),
        RespValue::BulkString("GET <pattern>".spec_bytes()),
        RespValue::BulkString("    Return parameters matching the <pattern> and their values.".spec_bytes()),
        RespValue::BulkString("SET <directive> <value>".spec_bytes()),
        RespValue::BulkString("    Set the configuration <directive> to <value>.".spec_bytes()),
        RespValue::BulkString("HELP".spec_bytes()),
        RespValue::BulkString("    Prints this help.".spec_bytes()),
    ]
}

/// The reply to `action` with the configuration `config`.
pub open spec fn config_reply(action: ActionModel, config: DbConfig) -> Result<RespValue, RespValue> {
    match action {
        ActionModel::Help => Ok(RespValue::Array(help_lines())),
        ActionModel::Get(items) => Ok(RespValue::Array(item_pairs(items, config))),
        ActionModel::Assign(_, _) => Err(RespValue::Error("ERR CONFIG SET is not supported".spec_bytes())),
        ActionModel::Rewrite => Err(
            RespValue::Error("ERR CONFIG REWRITE is not supported".spec_bytes()),
        ),
        ActionModel::ResetStat => Err(
            RespValue::Error("ERR CONFIG RESETSTAT is not supported".spec_bytes()),
        ),
    }
}

fn parse_item(name: &[u8]) -> (r: Option<ConfigItem>)
    ensures
        r == config_item(name@),
{
    if is_word(name, "DIR") {
        Some(ConfigItem::Dir)
    } else if is_word(name, "DBFILENAME") {
        Some(ConfigItem::DbFilename)
    } else {
        None
    }
}

fn unknown_item_error(sub: &str, name: &[u8]) -> (r: RedisMessageType)
    ensures
        r@ == RespValue::Error(unknown_item_text(sub.spec_bytes(), name@)),
{
    let mut t = text("ERR Unknown option or number of arguments for CONFIG ");
    append(&mut t, sub.as_bytes());
    append(&mut t, " - '".as_bytes());
    append(&mut t, name);
    append(&mut t, "'".as_bytes());
    assert(t@ =~= unknown_item_text(sub.spec_bytes(), name@));
    RedisMessageType::Error(t)
}

fn bulk_reply(s: &str) -> (r: RedisMessageType)
    ensures
        r@ == RespValue::BulkString(s.spec_bytes()),
{
    RedisMessageType::BulkString(text(s))
}

impl ConfigCommand {
    fn new(action: Action) -> (r: ConfigCommand)
        ensures
            r.action@ == action@,
    {
        ConfigCommand { action }
    }

    /// The parameters that `args[from..]` name.
    fn parse_get_command(args: &Vec<RedisMessageType>, from: usize) -> (r: Result<Action, RedisMessageType>)
        requires
            from <= args@.len(),
        ensures
            match spec_get_items(views(args@).subrange(from as int, args@.len() as int)) {
                Ok(items) => r matches Ok(a) && a@ == ActionModel::Get(items),
                Err(e) => r matches Err(m) && m@ == e,
            },
    {
        let mut items: Vec<ConfigItem> = Vec::new();
        let mut i: usize = from;
        let ghost all = views(args@).subrange(from as int, args@.len() as int);
        while i < args.len()
            invariant
                from <= i <= args@.len(),
                all == views(args@).subrange(from as int, args@.len() as int),
                spec_get_items(all) == (match spec_get_items(views(args@).subrange(i as int, args@.len() as int)) {
                    Ok(rest) => Ok(items@ + rest),
                    Err(e) => Err(e),
                }),
            decreases args.len() - i,
        {
            let ghost rest = views(args@).subrange(i as int, args@.len() as int);
            assert(rest[0] == args@[i as int]@);
            assert(rest.drop_first() =~= views(args@).subrange(i + 1, args@.len() as int));
            let name = match bulk_value(&args[i], "config") {
                Ok(v) => v,
                Err(e) => {
                    return Err(e);
                },
            };
            let item = match parse_item(name.as_slice()) {
                Some(item) => item,
                None => {
                    return Err(unknown_item_error("GET", name.as_slice()));
                },
            };
            let ghost before = items@;
            items.push(item);
            proof {
                if let Ok(tail) = spec_get_items(rest.drop_first()) {
                    assert(before + (seq![item] + tail) =~= items@ + tail);
                }
            }
            i = i + 1;
        }
        assert(views(args@).subrange(i as int, args@.len() as int) =~= Seq::<RespValue>::empty());
        assert(items@ + Seq::<ConfigItem>::empty() =~= items@);
        Ok(Action::Get(items))
    }

    /// `args[from..]` are a parameter and its new value.
    fn parse_set_command(args: &Vec<RedisMessageType>, from: usize) -> (r: Result<Action, RedisMessageType>)
        requires
            from <= args@.len(),
        ensures
            ({
                let rest = views(args@).subrange(from as int, args@.len() as int);
                if rest.len() != 2 || !(rest[0] is BulkString) || !(rest[1] is BulkString) {
                    r matches Err(m) && m@ == RespValue::Error(arg_count_error_text("config".spec_bytes()))
                } else {
                    match config_item(rest[0]->BulkString_0) {
                        None => r matches Err(m) && m@ == RespValue::Error(
                            unknown_item_text("SET".spec_bytes(), rest[0]->BulkString_0),
                        ),
                        Some(item) => r matches Ok(a) && a@ == ActionModel::Assign(
                            item,
                            rest[1]->BulkString_0,
                        ),
                    }
                }
            }),
    {
        let ghost rest = views(args@).subrange(from as int, args@.len() as int);
        if args.len() - from != 2 {
            return Err(arg_count_error("config"));
        }
        assert(rest[0] == args@[from as int]@);
        assert(rest[1] == args@[from + 1]@);
        let name = match bulk_value(&args[from], "config") {
            Ok(v) => v,
            Err(e) => {
                return Err(e);
            },
        };
        let value = match bulk_value(&args[from + 1], "config") {
            Ok(v) => v,
            Err(e) => {
                return Err(e);
            },
        };
        match parse_item(name.as_slice()) {
            Some(item) => Ok(Action::Assign((item, value))),
            None => Err(unknown_item_error("SET", name.as_slice())),
        }
    }

    fn generate_help() -> (r: RedisMessageType)
        ensures
            r@ == RespValue::Array(help_lines()),
    {
        let vals = vec![
            bulk_reply("CONFIG <subcommand> [<arg> [value] [opt] ...]. Subcommands are:"),
            bulk_reply("GET <pattern>"),
            bulk_reply("    Return parameters matching the <pattern> and their values."),
            bulk_reply("SET <directive> <value>"),
            bulk_reply("    Set the configuration <directive> to <value>."),
            bulk_reply("HELP"),
            bulk_reply("    Prints this help."),
        ];
        let r = RedisMessageType::Array(vals);
        assert(r@->Array_0 =~= help_lines());
        r
    }

    fn execute_get(items: Vec<ConfigItem>, config: &DbConfig) -> (r: Result<RedisMessageType, RedisMessageType>)
        ensures
            r matches Ok(m) && m@ == RespValue::Array(item_pairs(items@, *config)),
    {
        let mut out: Vec<RedisMessageType> = Vec::new();
        let mut i: usize = 0;
        while i < items.len()
            invariant
                i <= items@.len(),
                views(out@) == item_pairs(items@.subrange(0, i as int), *config),
            decreases items.len() - i,
        {
            let ghost before = views(out@);
            let (name, value) = match items[i] {
                ConfigItem::Dir => (bulk_reply("dir"), RedisMessageType::BulkString(copy_bytes(config.db_dir.as_slice()))),
                ConfigItem::DbFilename => (bulk_reply("dbfilename"), RedisMessageType::BulkString(copy_bytes(config.db_filename.as_slice()))),
            };
            let ghost (nv, vv) = (name@, value@);
            out.push(name);
            out.push(value);
            proof {
                let s = items@.subrange(0, i + 1);
                assert(s.drop_last() =~= items@.subrange(0, i as int));
                assert(views(out@) =~= before + seq![nv, vv]);
                assert(item_pair(items@[i as int], *config) =~= seq![nv, vv]);
            }
            i = i + 1;
        }
        assert(items@.subrange(0, i as int) =~= items@);
        let r = RedisMessageType::Array(out);
        assert(r@->Array_0 =~= views(out@));
        Ok(r)
    }

    /// Reads the subcommand and its arguments.
    pub fn parse(args: Vec<RedisMessageType>) -> (r: Result<ConfigCommand, RedisMessageType>)
        ensures
            match spec_parse_config(views(args@)) {
                Ok(a) => r matches Ok(c) && c.action@ == a,
                Err(e) => r matches Err(m) && m@ == e,
            },
    {
        let ghost a = views(args@);
        if args.len() == 0 {
            return Err(arg_count_error("config"));
        }
        assert(a[0] == args@[0]@);
        let sub = match bulk_value(&args[0], "config") {
            Ok(v) => v,
            Err(e) => {
                return Err(e);
            },
        };
        assert(a.drop_first() =~= views(args@).subrange(1, args@.len() as int));
        let action = if is_word(sub.as_slice(), "HELP") {
            Action::Help
        } else if is_word(sub.as_slice(), "REWRITE") {
            Action::Rewrite
        } else if is_word(sub.as_slice(), "RESETSTAT") {
            Action::ResetStat
        } else if is_word(sub.as_slice(), "GET") {
            match Self::parse_get_command(&args, 1) {
                Ok(action) => action,
                Err(e) => {
                    return Err(e);
                },
            }
        } else if is_word(sub.as_slice(), "SET") {
            match Self::parse_set_command(&args, 1) {
                Ok(action) => action,
                Err(e) => {
                    return Err(e);
                },
            }
        } else {
            let mut t = text("ERR unknown subcommand '");
            append(&mut t, sub.as_slice());
            append(&mut t, "'. Try CONFIG HELP.".as_bytes());
            return Err(RedisMessageType::Error(t));
        };
        Ok(Self::new(action))
    }

    pub fn execute(self, config: &DbConfig) -> (r: Result<RedisMessageType, RedisMessageType>)
        ensures
            match config_reply(self.action@, *config) {
                Ok(v) => r matches Ok(m) && m@ == v,
                Err(v) => r matches Err(m) && m@ == v,
            },
    {
        match self.action {
            Action::Help => Ok(Self::generate_help()),
            Action::Get(items) => Self::execute_get(items, config),
            Action::Assign(_) => Err(RedisMessageType::Error(text("ERR CONFIG SET is not supported"))),
            Action::Rewrite => Err(RedisMessageType::Error(text("ERR CONFIG REWRITE is not supported"))),
            Action::ResetStat => Err(RedisMessageType::Error(text("ERR CONFIG RESETSTAT is not supported"))),
        }
    }
}

} // verus!
