//! `ECHO <message>`: replies with the message as a bulk string.
use vstd::prelude::*;
use vstd::string::StringSliceAdditionalSpecFns;

use crate::commands::traits::{arg_count_error, arg_count_error_text, bulk_value, views};
use crate::parser::messages::{RedisMessageType, RespValue};

verus! {

pub struct EchoCommand {
    pub echo_value: Vec<u8>,
}

impl EchoCommand {
    pub fn new(echo_value: Vec<u8>) -> (r: EchoCommand)
        ensures
            r.echo_value == echo_value,
    {
        EchoCommand { echo_value }
    }

    /// `ECHO` takes exactly one bulk-string argument.
    pub fn parse(args: Vec<RedisMessageType>) -> (r: Result<EchoCommand, RedisMessageType>)
        ensures
            views(args@).len() == 1 && views(args@)[0] is BulkString ==> (r matches Ok(c)
                && RespValue::BulkString(c.echo_value@) == views(args@)[0]),
            !(views(args@).len() == 1 && views(args@)[0] is BulkString) ==> (r matches Err(e)
                && e@ == RespValue::Error(arg_count_error_text("echo".spec_bytes()))),
    {
        if args.len() != 1 {
            return Err(arg_count_error("echo"));
        }
        assert(views(args@)[0] == args@[0]@);
        match bulk_value(&args[0], "echo") {
            Ok(v) => Ok(EchoCommand::new(v)),
            Err(e) => Err(e),
        }
    }

    pub fn execute(self) -> (r: Result<RedisMessageType, RedisMessageType>)
        ensures
            r matches Ok(m) && m@ == RespValue::BulkString(self.echo_value@),
    {
        Ok(RedisMessageType::BulkString(self.echo_value))
    }
}

} // verus!
