//! `PSYNC <replication id> <offset>`: replies `FULLRESYNC <id> <offset>`
//! with this server's replication id and offset.
use vstd::prelude::*;
use vstd::string::StringSliceAdditionalSpecFns;

use crate::commands::traits::{arg_count_error, arg_count_error_text, bulk_value, views};
use crate::db::data_store::DbConfig;
use crate::parser::messages::{RedisMessageType, RespValue};
use crate::parser::numbers::{nat_digits, parse_decimal_i64, parse_i64, push_decimal};
use crate::utils::bytes::{append, text};

verus! {

pub struct PsyncCommand {
    pub replication_id: Vec<u8>,
    /// The offset asked for; 0 where it is not a decimal integer.
    pub replication_offset: i64,
}

/// The reply text `FULLRESYNC <id> <offset>`.
pub open spec fn fullresync_text(config: DbConfig) -> Seq<u8> {
    "FULLRESYNC ".spec_bytes() + config.replication_data.master_repl_id@ + seq![0x20u8]
        + nat_digits(config.replication_data.master_repl_offset as nat)
}

impl PsyncCommand {
    pub fn new(replication_id: Vec<u8>, replication_offset: i64) -> (r: PsyncCommand)
        ensures
            r.replication_id == replication_id,
            r.replication_offset == replication_offset,
    {
        PsyncCommand { replication_id, replication_offset }
    }

    /// `PSYNC` takes two bulk-string arguments: a replication id and an
    /// offset.
    pub fn parse(args: Vec<RedisMessageType>) -> (r: Result<PsyncCommand, RedisMessageType>)
        ensures
            views(args@).len() == 2 && views(args@)[0] is BulkString && views(args@)[1] is BulkString
                ==> (r matches Ok(c) && RespValue::BulkString(c.replication_id@) == views(args@)[0]
                && c.replication_offset == (match parse_i64(views(args@)[1]->BulkString_0) {
                Some(n) => n,
                None => 0,
            })),
            !(views(args@).len() == 2 && views(args@)[0] is BulkString && views(args@)[1] is BulkString)
                ==> (r matches Err(e) && e@ == RespValue::Error(
                arg_count_error_text("psync".spec_bytes()),
            )),
    {
        if args.len() != 2 {
            return Err(arg_count_error("psync"));
        }
        assert(views(args@)[0] == args@[0]@);
        assert(views(args@)[1] == args@[1]@);
        let id = match bulk_value(&args[0], "psync") {
            Ok(v) => v,
            Err(e) => {
                return Err(e);
            },
        };
        let offset_text = match bulk_value(&args[1], "psync") {
            Ok(v) => v,
            Err(e) => {
                return Err(e);
            },
        };
        assert(offset_text@.subrange(0, offset_text@.len() as int) =~= offset_text@);
        let offset = match parse_decimal_i64(offset_text.as_slice(), 0, offset_text.len()) {
            Some(n) => n,
            None => 0,
        };
        Ok(PsyncCommand::new(id, offset))
    }

    pub fn execute(self, config: &DbConfig) -> (r: Result<RedisMessageType, RedisMessageType>)
        ensures
            r matches Ok(m) && m@ == RespValue::SimpleString(fullresync_text(*config)),
    {
        let data = &config.replication_data;
        let mut out = text("FULLRESYNC ");
        append(&mut out, data.master_repl_id.as_slice());
        out.push(0x20);
        push_decimal(&mut out, data.master_repl_offset);
        assert(out@ =~= fullresync_text(*config));
        Ok(RedisMessageType::SimpleString(out))
    }
}

} // verus!
