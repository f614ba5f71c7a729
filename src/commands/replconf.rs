//! `REPLCONF ...`: acknowledged with `OK`; the arguments are not read.
use vstd::prelude::*;
use vstd::string::StringSliceAdditionalSpecFns;

use crate::commands::traits::simple_reply;
use crate::parser::messages::{RedisMessageType, RespValue};

verus! {

pub struct ReplConfCommand;

impl ReplConfCommand {
    pub fn new() -> (r: ReplConfCommand) {
        ReplConfCommand
    }

    pub fn parse(args: Vec<RedisMessageType>) -> (r: Result<ReplConfCommand, RedisMessageType>)
        ensures
            r is Ok,
    {
        Ok(ReplConfCommand::new())
    }

    pub fn execute(self) -> (r: Result<RedisMessageType, RedisMessageType>)
        ensures
            r matches Ok(m) && m@ == RespValue::SimpleString("OK".spec_bytes()),
    {
        Ok(simple_reply("OK"))
    }
}

} // verus!
