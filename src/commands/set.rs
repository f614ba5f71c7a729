//! `SET <key> <value> [NX|XX] [GET] [EX s|PX ms|EXAT s|PXAT ms|KEEPTTL]`.
use vstd::prelude::*;
use vstd::string::StringSliceAdditionalSpecFns;

use crate::commands::get::get_reply;
use crate::commands::traits::{arg_count_error, arg_count_error_text, bulk_value, error_reply, simple_reply, views};
use crate::db::data_store::{
    after_get, is_expired_at, lookup, spec_expiry_deadline, DataStore, DataUnit, Expiry,
};
use crate::parser::messages::{RedisMessageType, RespValue};
use crate::parser::numbers::{parse_decimal_u64, parse_u64};
use crate::utils::bytes::{copy_bytes, is_word, same_word};

verus! {

/// The existence condition of a `SET`.
#[derive(Debug, Clone, Copy, PartialEq, Eq, Structural)]
pub enum SetCondition {
    /// Write only if no live entry is there.
    NX,
    /// Write only if a live entry is there.
    XX,
}

impl SetCondition {
    /// `NX` or `XX`, in any case.
    pub fn from(val: &[u8]) -> (r: Option<SetCondition>)
        ensures
            r == (if same_word(val@, "NX".spec_bytes()) {
                Some(SetCondition::NX)
            } else if same_word(val@, "XX".spec_bytes()) {
                Some(SetCondition::XX)
            } else {
                None
            }),
    {
        if is_word(val, "NX") {
            Some(SetCondition::NX)
        } else if is_word(val, "XX") {
            Some(SetCondition::XX)
        } else {
            None
        }
    }
}

/// The expiry a `SET` asks for.
#[derive(Debug, Clone, Copy, PartialEq, Eq, Structural)]
pub enum ExpiryCondition {
    /// Seconds from now.
    EX(u64),
    /// Milliseconds from now.
    PX(u64),
    /// Unix time in seconds.
    EXAT(u64),
    /// Unix time in milliseconds.
    PXAT(u64),
    /// The deadline of the entry already there, if any.
    KEEPTTL,
}

pub struct SetCommand {
    pub key: Vec<u8>,
    pub value: Vec<u8>,
    pub set_condition: Option<SetCondition>,
    pub expiry_condition: Option<ExpiryCondition>,
    pub return_old_value: bool,
}

/// The options of a `SET` read so far: existence condition, expiry, and whether the old
/// value is asked for.
pub type SetOptions = (Option<SetCondition>, Option<ExpiryCondition>, bool);

pub open spec fn syntax_error() -> RespValue {
    RespValue::Error("ERR syntax error".spec_bytes())
}

pub open spec fn not_an_integer_error() -> RespValue {
    RespValue::Error("ERR value is not an integer or out of range".spec_bytes())
}

/// The expiry option that `w` names, with the amount `n`.
pub open spec fn timed_expiry(w: Seq<u8>, n: u64) -> Option<ExpiryCondition> {
    if same_word(w, "EX".spec_bytes()) {
        Some(ExpiryCondition::EX(n))
    } else if same_word(w, "PX".spec_bytes()) {
        Some(ExpiryCondition::PX(n))
    } else if same_word(w, "EXAT".spec_bytes()) {
        Some(ExpiryCondition::EXAT(n))
    } else if same_word(w, "PXAT".spec_bytes()) {
        Some(ExpiryCondition::PXAT(n))
    } else {
        None
    }
}

/// Reads the options `a[i..]` on top of `o`: the options, or the error
/// reply. The condition may be given twice only the same way; one expiry at most.
pub open spec fn spec_set_options(a: Seq<RespValue>, i: int, o: SetOptions) -> Result<SetOptions, RespValue>
    decreases a.len() - i,
{
    if i < 0 || i >= a.len() {
        Ok(o)
    } else if !(a[i] is BulkString) {
        Err(RespValue::Error(arg_count_error_text("set".spec_bytes())))
    } else {
        let w = a[i]->BulkString_0;
        if same_word(w, "NX".spec_bytes()) || same_word(w, "XX".spec_bytes()) {
            let c = if same_word(w, "NX".spec_bytes()) {
                SetCondition::NX
            } else {
                SetCondition::XX
            };
            if o.0 is Some && o.0 != Some(c) {
                Err(syntax_error())
            } else {
                spec_set_options(a, i + 1, (Some(c), o.1, o.2))
            }
        } else if same_word(w, "GET".spec_bytes()) {
            spec_set_options(a, i + 1, (o.0, o.1, true))
        } else if same_word(w, "KEEPTTL".spec_bytes()) {
            if o.1 is Some {
                Err(syntax_error())
            } else {
                spec_set_options(a, i + 1, (o.0, Some(ExpiryCondition::KEEPTTL), o.2))
            }
        } else if timed_expiry(w, 0) is Some {
            if o.1 is Some {
                Err(syntax_error())
            } else if i + 1 >= a.len() || !(a[i + 1] is BulkString) {
                Err(RespValue::Error(arg_count_error_text("set".spec_bytes())))
            } else {
                match parse_u64(a[i + 1]->BulkString_0) {
                    Some(n) => spec_set_options(a, i + 2, (o.0, timed_expiry(w, n), o.2)),
                    None => Err(not_an_integer_error()),
                }
            }
        } else {
            Err(syntax_error())
        }
    }
}

/// A product in `u64`, or `u64::MAX` where it does not fit.
pub open spec fn saturating_times_1000(n: u64) -> u64 {
    if n * 1000 <= u64::MAX {
        (n * 1000) as u64
    } else {
        u64::MAX
    }
}

/// The monotonic deadline a `SET` gives its entry; `live` is the entry that
/// was there, if any.
pub open spec fn new_deadline(
    e: Option<ExpiryCondition>,
    live: Option<(Seq<u8>, Option<u64>)>,
    now: u64,
    unix_now: u64,
) -> Option<u64> {
    match e {
        None => None,
        Some(ExpiryCondition::EX(s)) => Some(
            spec_expiry_deadline(Expiry::Ttl(saturating_times_1000(s)), now, unix_now),
        ),
        Some(ExpiryCondition::PX(ms)) => Some(spec_expiry_deadline(Expiry::Ttl(ms), now, unix_now)),
        Some(ExpiryCondition::EXAT(s)) => Some(
            spec_expiry_deadline(Expiry::Deadline(saturating_times_1000(s)), now, unix_now),
        ),
        Some(ExpiryCondition::PXAT(ms)) => Some(
            spec_expiry_deadline(Expiry::Deadline(ms), now, unix_now),
        ),
        Some(ExpiryCondition::KEEPTTL) => match live {
            Some(v) => v.1,
            None => None,
        },
    }
}

/// The existence condition holds the write back: `NX` with a live entry, or `XX` without.
pub open spec fn condition_blocks(c: Option<SetCondition>, live: Option<(Seq<u8>, Option<u64>)>) -> bool {
    (c == Some(SetCondition::NX) && live is Some) || (c == Some(SetCondition::XX) && live is None)
}

pub open spec fn condition_error(c: Option<SetCondition>) -> RespValue {
    if c == Some(SetCondition::NX) {
        RespValue::Error("ERR not set: the key exists and NX was given".spec_bytes())
    } else {
        RespValue::Error("ERR not set: the key does not exist and XX was given".spec_bytes())
    }
}

/// The entries after a `SET` of `key` to `value` with the options `o` runs
/// on the entries `c0` at `now` / `unix_now`.
pub open spec fn set_contents_of(
    key: Seq<u8>,
    value: Seq<u8>,
    o: SetOptions,
    c0: Map<Seq<u8>, (Seq<u8>, Option<u64>)>,
    now: u64,
    unix_now: u64,
) -> Map<Seq<u8>, (Seq<u8>, Option<u64>)> {
    let live = lookup(c0, key, now);
    if condition_blocks(o.0, live) {
        after_get(c0, key, now)
    } else {
        after_get(c0, key, now).insert(key, (value, new_deadline(o.1, live, now, unix_now)))
    }
}

/// The reply of a `SET` of `key` with the options `o` on the entries `c0`
/// at `now`.
pub open spec fn set_reply_of(key: Seq<u8>, o: SetOptions, c0: Map<Seq<u8>, (Seq<u8>, Option<u64>)>, now: u64) -> Result<
    RespValue,
    RespValue,
> {
    let live = lookup(c0, key, now);
    if condition_blocks(o.0, live) {
        Err(condition_error(o.0))
    } else if o.2 {
        Ok(
            match live {
                Some(v) => RespValue::BulkString(v.0),
                None => RespValue::NullBulkString,
            },
        )
    } else {
        Ok(RespValue::SimpleString("OK".spec_bytes()))
    }
}

/// The options of `cmd`.
pub open spec fn options_of(cmd: &SetCommand) -> SetOptions {
    (cmd.set_condition, cmd.expiry_condition, cmd.return_old_value)
}

/// The entries after `cmd` runs on the entries `c0` at `now` / `unix_now`.
pub open spec fn set_contents(cmd: &SetCommand, c0: Map<Seq<u8>, (Seq<u8>, Option<u64>)>, now: u64, unix_now: u64) -> Map<
    Seq<u8>,
    (Seq<u8>, Option<u64>),
> {
    set_contents_of(cmd.key@, cmd.value@, options_of(cmd), c0, now, unix_now)
}

/// The reply of `cmd` on the entries `c0` at `now`.
pub open spec fn set_reply(cmd: &SetCommand, c0: Map<Seq<u8>, (Seq<u8>, Option<u64>)>, now: u64) -> Result<RespValue, RespValue> {
    set_reply_of(cmd.key@, options_of(cmd), c0, now)
}

/// Under `NX`, a `SET` leaves the entries unchanged exactly when a live
/// entry is under the key. Left aside: the new entry equal to one already
/// there (then writing it changes nothing either).
pub proof fn lemma_nx_unchanged_iff_present(
    key: Seq<u8>,
    value: Seq<u8>,
    o: SetOptions,
    c0: Map<Seq<u8>, (Seq<u8>, Option<u64>)>,
    now: u64,
    unix_now: u64,
)
    requires
        o.0 == Some(SetCondition::NX),
        !(c0.contains_key(key) && c0[key] == (value, new_deadline(o.1, lookup(c0, key, now), now, unix_now))),
    ensures
        (set_contents_of(key, value, o, c0, now, unix_now) == c0) <==> lookup(c0, key, now) is Some,
{
    let after = set_contents_of(key, value, o, c0, now, unix_now);
    if lookup(c0, key, now) is None {
        assert(after.contains_key(key));
        if after == c0 {
            assert(c0[key] == after[key]);
        }
    }
}

/// Under `XX`, a `SET` leaves the entries unchanged exactly when no entry is
/// under the key. Left aside: an expired entry under the key (the read
/// removes it) and the new entry equal to the one already there.
pub proof fn lemma_xx_unchanged_iff_absent(
    key: Seq<u8>,
    value: Seq<u8>,
    o: SetOptions,
    c0: Map<Seq<u8>, (Seq<u8>, Option<u64>)>,
    now: u64,
    unix_now: u64,
)
    requires
        o.0 == Some(SetCondition::XX),
        !(c0.contains_key(key) && is_expired_at(c0[key].1, now)),
        !(c0.contains_key(key) && c0[key] == (value, new_deadline(o.1, lookup(c0, key, now), now, unix_now))),
    ensures
        (set_contents_of(key, value, o, c0, now, unix_now) == c0) <==> !c0.contains_key(key),
{
    let after = set_contents_of(key, value, o, c0, now, unix_now);
    if c0.contains_key(key) {
        assert(after.contains_key(key));
        if after == c0 {
            assert(c0[key] == after[key]);
        }
    }
}

/// After `SET key value PX ms` at `t0`, a `GET key` at any later `t` replies
/// the value before `t0 + ms` and the null bulk string from then on.
pub proof fn lemma_px_expiry(
    key: Seq<u8>,
    value: Seq<u8>,
    ms: u64,
    c0: Map<Seq<u8>, (Seq<u8>, Option<u64>)>,
    t0: u64,
    unix_now: u64,
    t: u64,
)
    requires
        t0 + ms <= u64::MAX,
        t0 <= t,
    ensures
        get_reply(
            set_contents_of(key, value, (None, Some(ExpiryCondition::PX(ms)), false), c0, t0, unix_now),
            key,
            t,
        ) == (if t < t0 + ms {
            RespValue::BulkString(value)
        } else {
            RespValue::NullBulkString
        }),
{
}

fn times_1000(n: u64) -> (r: u64)
    ensures
        r == saturating_times_1000(n),
{
    if n > u64::MAX / 1000 {
        u64::MAX
    } else {
        n * 1000
    }
}

fn timed_expiry_exec(w: &[u8], n: u64) -> (r: Option<ExpiryCondition>)
    ensures
        r == timed_expiry(w@, n),
{
    if is_word(w, "EX") {
        Some(ExpiryCondition::EX(n))
    } else if is_word(w, "PX") {
        Some(ExpiryCondition::PX(n))
    } else if is_word(w, "EXAT") {
        Some(ExpiryCondition::EXAT(n))
    } else if is_word(w, "PXAT") {
        Some(ExpiryCondition::PXAT(n))
    } else {
        None
    }
}

impl SetCommand {
    pub fn new(
        key: Vec<u8>,
        value: Vec<u8>,
        set_condition: Option<SetCondition>,
        expiry_condition: Option<ExpiryCondition>,
        return_old_value: bool,
    ) -> (r: SetCommand)
        ensures
            r.key == key,
            r.value == value,
            r.set_condition == set_condition,
            r.expiry_condition == expiry_condition,
            r.return_old_value == return_old_value,
    {
        SetCommand { key, value, set_condition, expiry_condition, return_old_value }
    }

    /// Reads key, value and options, in any order of the options.
    pub fn parse(args: Vec<RedisMessageType>) -> (r: Result<SetCommand, RedisMessageType>)
        ensures
            ({
                let a = views(args@);
                if a.len() < 2 || !(a[0] is BulkString) || !(a[1] is BulkString) {
                    r matches Err(m) && m@ == RespValue::Error(arg_count_error_text("set".spec_bytes()))
                } else {
                    match spec_set_options(a, 2, (None, None, false)) {
                        Ok(o) => r matches Ok(c) && c.key@ == a[0]->BulkString_0 && c.value@
                            == a[1]->BulkString_0 && c.set_condition == o.0 && c.expiry_condition
                            == o.1 && c.return_old_value == o.2,
                        Err(e) => r matches Err(m) && m@ == e,
                    }
                }
            }),
    {
        let ghost a = views(args@);
        if args.len() < 2 {
            return Err(arg_count_error("set"));
        }
        assert(a[0] == args@[0]@);
        assert(a[1] == args@[1]@);
        let key = match bulk_value(&args[0], "set") {
            Ok(v) => v,
            Err(e) => {
                return Err(e);
            },
        };
        let value = match bulk_value(&args[1], "set") {
            Ok(v) => v,
            Err(e) => {
                return Err(e);
            },
        };
        let mut set_condition: Option<SetCondition> = None;
        let mut expiry_condition: Option<ExpiryCondition> = None;
        let mut return_old_value = false;
        let mut i: usize = 2;
        while i < args.len()
            invariant
                2 <= i <= args@.len(),
                a == views(args@),
                a.len() >= 2,
                a[0] is BulkString && a[1] is BulkString,
                key@ == a[0]->BulkString_0,
                value@ == a[1]->BulkString_0,
                spec_set_options(a, 2, (None, None, false)) == spec_set_options(
                    a,
                    i as int,
                    (set_condition, expiry_condition, return_old_value),
                ),
            decreases args.len() - i,
        {
            assert(a[i as int] == args@[i as int]@);
            let word = match bulk_value(&args[i], "set") {
                Ok(v) => v,
                Err(e) => {
                    return Err(e);
                },
            };
            let w = word.as_slice();
            if let Some(c) = SetCondition::from(w) {
                match set_condition {
                    Some(prev) => {
                        if prev != c {
                            return Err(error_reply("ERR syntax error"));
                        }
                    },
                    None => {},
                }
                set_condition = Some(c);
                i = i + 1;
            } else if is_word(w, "GET") {
                return_old_value = true;
                i = i + 1;
            } else if is_word(w, "KEEPTTL") {
                if expiry_condition.is_some() {
                    return Err(error_reply("ERR syntax error"));
                }
                expiry_condition = Some(ExpiryCondition::KEEPTTL);
                i = i + 1;
            } else if timed_expiry_exec(w, 0).is_some() {
                if expiry_condition.is_some() {
                    return Err(error_reply("ERR syntax error"));
                }
                if i + 1 >= args.len() {
                    return Err(arg_count_error("set"));
                }
                assert(a[i + 1] == args@[i + 1]@);
                let amount = match bulk_value(&args[i + 1], "set") {
                    Ok(v) => v,
                    Err(e) => {
                        return Err(e);
                    },
                };
                assert(amount@.subrange(0, amount@.len() as int) =~= amount@);
                let n = match parse_decimal_u64(amount.as_slice(), 0, amount.len()) {
                    Some(n) => n,
                    None => {
                        return Err(error_reply("ERR value is not an integer or out of range"));
                    },
                };
                expiry_condition = timed_expiry_exec(w, n);
                i = i + 2;
            } else {
                return Err(error_reply("ERR syntax error"));
            }
        }
        Ok(SetCommand::new(key, value, set_condition, expiry_condition, return_old_value))
    }

    /// Reads the key (an expired entry is removed), checks the existence condition, and
    /// writes the new entry unless the condition holds it back.
    ///
    /// Under `NX` the entries stay as they were exactly when a live entry
    /// was there, and the new entry is written when none was; under `XX` the
    /// other way round.
    pub fn execute(self, store: &mut DataStore, now: u64, unix_now: u64) -> (r: Result<
        RedisMessageType,
        RedisMessageType,
    >)
        ensures
            final(store).spec_config() == old(store).spec_config(),
            final(store).contents() == set_contents(&self, old(store).contents(), now, unix_now),
            match set_reply(&self, old(store).contents(), now) {
                Ok(v) => r matches Ok(m) && m@ == v,
                Err(v) => r matches Err(m) && m@ == v,
            },
            // The existence condition as the entries show it: a live entry under
            // `NX` leaves every entry as it was; no live entry under `XX` leaves
            // them as the read of the key left them; otherwise the new value is
            // written.
            self.set_condition == Some(SetCondition::NX) && lookup(old(store).contents(), self.key@, now) is Some
                ==> final(store).contents() == old(store).contents(),
            self.set_condition == Some(SetCondition::XX) && lookup(old(store).contents(), self.key@, now) is None
                ==> final(store).contents() == after_get(old(store).contents(), self.key@, now),
            !condition_blocks(self.set_condition, lookup(old(store).contents(), self.key@, now))
                ==> final(store).contents().contains_key(self.key@) && final(store).contents()[self.key@].0 == self.value@,
    {
        let ghost c0 = store.contents();
        let ghost live = lookup(c0, self.key@, now);
        let old_value = store.get(self.key.as_slice(), now);
        let expiry: Option<Expiry> = match self.expiry_condition {
            None => None,
            Some(ExpiryCondition::EX(s)) => Some(Expiry::Ttl(times_1000(s))),
            Some(ExpiryCondition::PX(ms)) => Some(Expiry::Ttl(ms)),
            Some(ExpiryCondition::EXAT(s)) => Some(Expiry::Deadline(times_1000(s))),
            Some(ExpiryCondition::PXAT(ms)) => Some(Expiry::Deadline(ms)),
            Some(ExpiryCondition::KEEPTTL) => match &old_value {
                Some(unit) => match unit.expiry_deadline {
                    Some(d) => Some(Expiry::Instant(d)),
                    None => None,
                },
                None => None,
            },
        };
        match self.set_condition {
            Some(SetCondition::NX) => {
                if old_value.is_some() {
                    return Err(error_reply("ERR not set: the key exists and NX was given"));
                }
            },
            Some(SetCondition::XX) => {
                if old_value.is_none() {
                    return Err(error_reply("ERR not set: the key does not exist and XX was given"));
                }
            },
            None => {},
        }
        let data = DataUnit::new(copy_bytes(self.key.as_slice()), self.value, expiry, now, unix_now);
        assert(data.expiry_deadline == new_deadline(self.expiry_condition, live, now, unix_now));
        store.set(self.key, data);
        if self.return_old_value {
            match old_value {
                Some(unit) => Ok(RedisMessageType::BulkString(unit.value)),
                None => Ok(RedisMessageType::NullBulkString),
            }
        } else {
            Ok(simple_reply("OK"))
        }
    }
}

} // verus!
