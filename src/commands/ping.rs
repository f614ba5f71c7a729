//! `PING`: replies `PONG`.
use vstd::prelude::*;
use vstd::string::StringSliceAdditionalSpecFns;

use crate::commands::traits::{arg_count_error, arg_count_error_text, simple_reply};
use crate::parser::messages::{RedisMessageType, RespValue};

verus! {

pub struct PingCommand;

impl PingCommand {
    pub fn new() -> (r: PingCommand) {
        PingCommand
    }

    /// `PING` takes no argument.
    pub fn parse(args: Vec<RedisMessageType>) -> (r: Result<PingCommand, RedisMessageType>)
        ensures
            r is Ok <==> args@.len() == 0,
            r matches Err(e) ==> e@ == RespValue::Error(arg_count_error_text("ping".spec_bytes())),
    {
        if args.len() != 0 {
            return Err(arg_count_error("ping"));
        }
        Ok(PingCommand::new())
    }

    pub fn execute(self) -> (r: Result<RedisMessageType, RedisMessageType>)
        ensures
            r matches Ok(m) && m@ == RespValue::SimpleString("PONG".spec_bytes()),
    {
        Ok(simple_reply("PONG"))
    }
}

} // verus!
