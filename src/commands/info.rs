//! `INFO`: the replication section; the arguments are not read.
use vstd::prelude::*;
use vstd::string::StringSliceAdditionalSpecFns;

use crate::consts::LF;
use crate::db::data_store::{spec_role_name, DbConfig};
use crate::parser::messages::{RedisMessageType, RespValue};
use crate::parser::numbers::{nat_digits, push_decimal};
use crate::utils::bytes::{append, text};

verus! {

pub struct InfoCommand;

/// `role:<role>`, `master_replid:<id>` and `master_repl_offset:<offset>`,
/// each on a line of its own.
pub open spec fn info_text(config: DbConfig) -> Seq<u8> {
    "role:".spec_bytes() + spec_role_name(config.replication_data.role) + seq![LF]
        + "master_replid:".spec_bytes() + config.replication_data.master_repl_id@ + seq![LF]
        + "master_repl_offset:".spec_bytes() + nat_digits(
        config.replication_data.master_repl_offset as nat,
    ) + seq![LF]
}

impl InfoCommand {
    pub fn new() -> (r: InfoCommand) {
        InfoCommand
    }

    pub fn parse(args: Vec<RedisMessageType>) -> (r: Result<InfoCommand, RedisMessageType>)
        ensures
            r is Ok,
    {
        Ok(InfoCommand::new())
    }

    pub fn execute(self, config: &DbConfig) -> (r: Result<RedisMessageType, RedisMessageType>)
        ensures
            r matches Ok(m) && m@ == RespValue::BulkString(info_text(*config)),
    {
        let data = &config.replication_data;
        let mut out = text("role:");
        append(&mut out, data.role.name().as_slice());
        out.push(LF);
        append(&mut out, "master_replid:".as_bytes());
        append(&mut out, data.master_repl_id.as_slice());
        out.push(LF);
        append(&mut out, "master_repl_offset:".as_bytes());
        push_decimal(&mut out, data.master_repl_offset);
        out.push(LF);
        assert(out@ =~= info_text(*config));
        Ok(RedisMessageType::BulkString(out))
    }
}

} // verus!
