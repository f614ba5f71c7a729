//! What the commands share: argument views, argument errors and replies.
use vstd::prelude::*;
use vstd::string::StringSliceAdditionalSpecFns;

use crate::parser::messages::{RedisMessageType, RespValue};
use crate::utils::bytes::{append, copy_bytes, text};

verus! {

/// The values of a list of arguments.
pub open spec fn views(args: Seq<RedisMessageType>) -> Seq<RespValue> {
    args.map_values(|m: RedisMessageType| m@)
}

/// `ERR wrong number of arguments for '<name>' command`.
pub open spec fn arg_count_error_text(name: Seq<u8>) -> Seq<u8> {
    "ERR wrong number of arguments for '".spec_bytes() + name + "' command".spec_bytes()
}

/// The reply to a wrong number of arguments, or to an argument that is not
/// a bulk string where one is needed.
pub fn arg_count_error(name: &str) -> (r: RedisMessageType)
    ensures
        r@ == RespValue::Error(arg_count_error_text(name.spec_bytes())),
{
    let mut t = text("ERR wrong number of arguments for '");
    append(&mut t, name.as_bytes());
    append(&mut t, "' command".as_bytes());
    RedisMessageType::Error(t)
}

/// An error reply with the text `s`.
pub fn error_reply(s: &str) -> (r: RedisMessageType)
    ensures
        r@ == RespValue::Error(s.spec_bytes()),
{
    RedisMessageType::Error(text(s))
}

/// A simple-string reply with the text `s`.
pub fn simple_reply(s: &str) -> (r: RedisMessageType)
    ensures
        r@ == RespValue::SimpleString(s.spec_bytes()),
{
    RedisMessageType::SimpleString(text(s))
}

/// The bytes of a bulk-string argument; any other argument is an argument
/// error of the command `name`.
pub fn bulk_value(arg: &RedisMessageType, name: &str) -> (r: Result<Vec<u8>, RedisMessageType>)
    ensures
        match arg@ {
            RespValue::BulkString(b) => r matches Ok(v) && v@ == b,
            _ => r matches Err(e) && e@ == RespValue::Error(arg_count_error_text(name.spec_bytes())),
        },
{
    match arg {
        RedisMessageType::BulkString(b) => Ok(copy_bytes(b.as_slice())),
        _ => Err(arg_count_error(name)),
    }
}

} // verus!
