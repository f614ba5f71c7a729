//! `KEYS <pattern>`: the live keys that match; a pattern may end in `*`,
//! which matches any rest.
use vstd::prelude::*;
use vstd::string::StringSliceAdditionalSpecFns;

use crate::commands::traits::{arg_count_error, arg_count_error_text, bulk_value, views};
use crate::db::data_store::{lookup, DataStore};
use crate::parser::messages::{RedisMessageType, RespValue};
use crate::utils::bytes::copy_bytes;

verus! {

pub const ASTERISK: u8 = 0x2a;

pub struct KeysCommand {
    pub pattern: Vec<u8>,
}

/// `key` matches `pattern`: it starts with what comes before a final `*`, or
/// is the pattern itself where there is no final `*`.
pub open spec fn key_matches(pattern: Seq<u8>, key: Seq<u8>) -> bool {
    if pattern.len() > 0 && pattern.last() == ASTERISK {
        let prefix = pattern.drop_last();
        key.len() >= prefix.len() && key.subrange(0, prefix.len() as int) == prefix
    } else {
        key == pattern
    }
}

/// `k` is live at `now` in `c` and matches `pattern`.
pub open spec fn wanted(c: Map<Seq<u8>, (Seq<u8>, Option<u64>)>, pattern: Seq<u8>, now: u64, k: Seq<u8>) -> bool {
    key_matches(pattern, k) && lookup(c, k, now) is Some
}

/// The live keys at `now` in `c` that match `pattern`.
pub open spec fn matching_keys(c: Map<Seq<u8>, (Seq<u8>, Option<u64>)>, pattern: Seq<u8>, now: u64) -> Set<Seq<u8>> {
    Set::new(|k: Seq<u8>| c.contains_key(k) && key_matches(pattern, k) && lookup(c, k, now) is Some)
}

/// The bytes of each bulk string in `xs`.
pub open spec fn bulk_contents(xs: Seq<RespValue>) -> Seq<Seq<u8>> {
    xs.map_values(|x: RespValue| x->BulkString_0)
}

fn key_matches_exec(pattern: &[u8], key: &[u8]) -> (r: bool)
    ensures
        r == key_matches(pattern@, key@),
{
    let n = pattern.len();
    if n > 0 && pattern[n - 1] == ASTERISK {
        let m = n - 1;
        if key.len() < m {
            return false;
        }
        let mut i: usize = 0;
        while i < m
            invariant
                i <= m,
                m == pattern@.len() - 1,
                m <= key@.len(),
                pattern@.len() > 0 && pattern@.last() == ASTERISK,
                forall|j: int| 0 <= j < i ==> key@[j] == pattern@[j],
            decreases m - i,
        {
            if key[i] != pattern[i] {
                assert(key@.subrange(0, m as int)[i as int] != pattern@.drop_last()[i as int]);
                return false;
            }
            i = i + 1;
        }
        assert(key@.subrange(0, m as int) =~= pattern@.drop_last());
        true
    } else {
        if key.len() != n {
            return false;
        }
        let mut i: usize = 0;
        while i < n
            invariant
                i <= n,
                n == pattern@.len(),
                n == key@.len(),
                !(pattern@.len() > 0 && pattern@.last() == ASTERISK),
                forall|j: int| 0 <= j < i ==> key@[j] == pattern@[j],
            decreases n - i,
        {
            if key[i] != pattern[i] {
                assert(key@[i as int] != pattern@[i as int]);
                return false;
            }
            i = i + 1;
        }
        assert(key@ =~= pattern@);
        true
    }
}

impl KeysCommand {
    pub fn new(pattern: Vec<u8>) -> (r: KeysCommand)
        ensures
            r.pattern == pattern,
    {
        KeysCommand { pattern }
    }

    /// `KEYS` takes exactly one bulk-string argument, the pattern.
    pub fn parse(args: Vec<RedisMessageType>) -> (r: Result<KeysCommand, RedisMessageType>)
        ensures
            views(args@).len() == 1 && views(args@)[0] is BulkString ==> (r matches Ok(c)
                && RespValue::BulkString(c.pattern@) == views(args@)[0]),
            !(views(args@).len() == 1 && views(args@)[0] is BulkString) ==> (r matches Err(e)
                && e@ == RespValue::Error(arg_count_error_text("keys".spec_bytes()))),
    {
        if args.len() != 1 {
            return Err(arg_count_error("keys"));
        }
        assert(views(args@)[0] == args@[0]@);
        match bulk_value(&args[0], "keys") {
            Ok(v) => Ok(KeysCommand::new(v)),
            Err(e) => Err(e),
        }
    }

    /// An array of bulk strings: each live key that matches, once, in no set
    /// order.
    pub fn execute(self, store: &DataStore, now: u64) -> (r: Result<RedisMessageType, RedisMessageType>)
        ensures
            r matches Ok(m) && m@ is Array && (forall|i: int|
                0 <= i < m@->Array_0.len() ==> #[trigger] m@->Array_0[i] is BulkString)
                && bulk_contents(m@->Array_0).to_set() == matching_keys(
                store.contents(),
                self.pattern@,
                now,
            ) && bulk_contents(m@->Array_0).no_duplicates(),
    {
        let keys = store.get_all_keys();
        let ghost ks = keys@.map_values(|k: Vec<u8>| k@);
        let mut out: Vec<RedisMessageType> = Vec::new();
        let ghost mut picked: Seq<Seq<u8>> = Seq::empty();
        let mut i: usize = 0;
        while i < keys.len()
            invariant
                i <= keys@.len(),
                ks == keys@.map_values(|k: Vec<u8>| k@),
                ks.no_duplicates(),
                views(out@) == picked.map_values(|k: Seq<u8>| RespValue::BulkString(k)),
                picked.no_duplicates(),
                forall|k: Seq<u8>| #[trigger] picked.contains(k) <==> exists|j: int|
                    0 <= j < i && ks[j] == k && wanted(store.contents(), self.pattern@, now, k),
            decreases keys.len() - i,
        {
            let key = &keys[i];
            assert(ks[i as int] == key@);
            if key_matches_exec(self.pattern.as_slice(), key.as_slice()) && store.is_live(key.as_slice(), now) {
                let ghost before = picked;
                proof {
                    assert(!before.contains(key@)) by {
                        if before.contains(key@) {
                            let j = choose|j: int| 0 <= j < i && ks[j] == key@ && wanted(store.contents(), self.pattern@, now, key@);
                            assert(ks[j] == ks[i as int]);
                        }
                    }
                }
                let ghost out_before = out@;
                let item = RedisMessageType::BulkString(copy_bytes(key.as_slice()));
                assert(item@ == RespValue::BulkString(key@));
                out.push(item);
                proof {
                    picked = before.push(key@);
                    assert(out@ == out_before.push(item));
                    assert(views(out@) =~= views(out_before).push(item@));
                    assert(views(out@) =~= picked.map_values(|k: Seq<u8>| RespValue::BulkString(k)));
                    assert forall|k: Seq<u8>| #[trigger] picked.contains(k) <==> exists|j: int|
                        0 <= j < i + 1 && ks[j] == k && wanted(store.contents(), self.pattern@, now, k) by {
                        if k == key@ {
                            assert(ks[i as int] == k && wanted(store.contents(), self.pattern@, now, k));
                        }
                        if picked.contains(k) {
                            let idx = choose|idx: int| 0 <= idx < picked.len() && picked[idx] == k;
                            if idx < before.len() {
                                assert(before[idx] == k);
                                assert(before.contains(k));
                                let j = choose|j: int| 0 <= j < i && ks[j] == k && wanted(store.contents(), self.pattern@, now, k);
                                assert(0 <= j < i + 1 && ks[j] == k);
                            } else {
                                assert(k == key@);
                            }
                        }
                        if exists|j: int| 0 <= j < i + 1 && ks[j] == k && wanted(store.contents(), self.pattern@, now, k) {
                            let j = choose|j: int| 0 <= j < i + 1 && ks[j] == k && wanted(store.contents(), self.pattern@, now, k);
                            if j < i {
                                assert(before.contains(k));
                                let idx = choose|idx: int| 0 <= idx < before.len() && before[idx] == k;
                                assert(picked[idx] == k);
                            } else {
                                assert(picked[before.len() as int] == k);
                            }
                        }
                    }
                }
            } else {
                proof {
                    assert forall|k: Seq<u8>| #[trigger] picked.contains(k) <==> exists|j: int|
                        0 <= j < i + 1 && ks[j] == k && wanted(store.contents(), self.pattern@, now, k) by {
                        if exists|j: int| 0 <= j < i + 1 && ks[j] == k && wanted(store.contents(), self.pattern@, now, k) {
                            let j = choose|j: int| 0 <= j < i + 1 && ks[j] == k && wanted(store.contents(), self.pattern@, now, k);
                            assert(j < i);
                        }
                    }
                }
            }
            i = i + 1;
        }
        let r = RedisMessageType::Array(out);
        proof {
            let xs = r@->Array_0;
            assert(xs =~= views(out@));
            assert(bulk_contents(xs) =~= picked);
            assert(picked.to_set() =~= matching_keys(store.contents(), self.pattern@, now)) by {
                assert forall|k: Seq<u8>| picked.to_set().contains(k) <==> matching_keys(
                    store.contents(),
                    self.pattern@,
                    now,
                ).contains(k) by {
                    if store.contents().contains_key(k) {
                        assert(ks.to_set().contains(k));
                    }
                    if picked.contains(k) {
                        let j = choose|j: int| 0 <= j < i && ks[j] == k && wanted(store.contents(), self.pattern@, now, k);
                        assert(ks.to_set().contains(k));
                    }
                }
            }
        }
        Ok(r)
    }
}

} // verus!
