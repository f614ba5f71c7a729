//! `GET <key>`: the live value under the key, or the null bulk string.
use vstd::prelude::*;
use vstd::string::StringSliceAdditionalSpecFns;

use crate::commands::traits::{arg_count_error, arg_count_error_text, bulk_value, views};
use crate::db::data_store::{after_get, lookup, DataStore};
use crate::parser::messages::{RedisMessageType, RespValue};

verus! {

pub struct GetCommand {
    pub key: Vec<u8>,
}

/// The reply to a read of `k` at `now` from the entries `c`.
pub open spec fn get_reply(c: Map<Seq<u8>, (Seq<u8>, Option<u64>)>, k: Seq<u8>, now: u64) -> RespValue {
    match lookup(c, k, now) {
        Some(v) => RespValue::BulkString(v.0),
        None => RespValue::NullBulkString,
    }
}

impl GetCommand {
    pub fn new(key: Vec<u8>) -> (r: GetCommand)
        ensures
            r.key == key,
    {
        GetCommand { key }
    }

    /// `GET` takes exactly one bulk-string argument, the key.
    pub fn parse(args: Vec<RedisMessageType>) -> (r: Result<GetCommand, RedisMessageType>)
        ensures
            views(args@).len() == 1 && views(args@)[0] is BulkString ==> (r matches Ok(c)
                && RespValue::BulkString(c.key@) == views(args@)[0]),
            !(views(args@).len() == 1 && views(args@)[0] is BulkString) ==> (r matches Err(e)
                && e@ == RespValue::Error(arg_count_error_text("get".spec_bytes()))),
    {
        if args.len() != 1 {
            return Err(arg_count_error("get"));
        }
        assert(views(args@)[0] == args@[0]@);
        match bulk_value(&args[0], "get") {
            Ok(v) => Ok(GetCommand::new(v)),
            Err(e) => Err(e),
        }
    }

    /// Reads the key at `now`; an expired entry found is removed.
    pub fn execute(self, store: &mut DataStore, now: u64) -> (r: Result<RedisMessageType, RedisMessageType>)
        ensures
            r matches Ok(m) && m@ == get_reply(old(store).contents(), self.key@, now),
            final(store).contents() == after_get(old(store).contents(), self.key@, now),
            final(store).spec_config() == old(store).spec_config(),
    {
        match store.get(self.key.as_slice(), now) {
            None => Ok(RedisMessageType::NullBulkString),
            Some(unit) => Ok(RedisMessageType::BulkString(unit.value)),
        }
    }
}

} // verus!
