//! The key-value store: byte-string keys, values with an optional expiry
//! deadline, lazy removal of expired entries, and the server configuration.
//!
//! Times are milliseconds: `now` on a monotonic clock, `unix_now` since the
//! Unix epoch. Callers read both clocks and hand them in.
use vstd::prelude::*;

use dashmap::DashMap;

use crate::db::db_file::{Database, DatabaseSubSectionHeader, KeyValueDataUnit};
use crate::utils::bytes::{append, copy_bytes};

verus! {

#[verifier::external_type_specification]
#[verifier::external_body]
#[verifier::reject_recursive_types(K)]
#[verifier::reject_recursive_types(V)]
#[verifier::reject_recursive_types(S)]
pub struct ExDashMap<K, V, S>(DashMap<K, V, S>);

/// What a stored entry holds besides its key: the value and the monotonic
/// deadline, if any.
pub type StoredValue = (Vec<u8>, Option<u64>);

/// The concurrent map that backs the store.
pub type StoreMap = DashMap<Vec<u8>, StoredValue>;

/// The entries of a store map, keyed by the bytes of the key.
pub uninterp spec fn map_contents(m: StoreMap) -> Map<Seq<u8>, (Seq<u8>, Option<u64>)>;

/// The contents of an empty map.
pub open spec fn no_entries() -> Map<Seq<u8>, (Seq<u8>, Option<u64>)> {
    Map::empty()
}

/// Relies on `DashMap::new`: a new map holds no entry.
#[verifier::external_body]
fn map_new() -> (r: StoreMap)
    ensures
        map_contents(r) == no_entries(),
{
    DashMap::new()
}

/// Relies on `DashMap::get`: the entry under `key`, copied out, or `None` when
/// there is none.
#[verifier::external_body]
fn map_get(m: &StoreMap, key: &[u8]) -> (r: Option<StoredValue>)
    ensures
        match r {
            Some(v) => map_contents(*m).contains_key(key@) && map_contents(*m)[key@] == (
                v.0@,
                v.1,
            ),
            None => !map_contents(*m).contains_key(key@),
        },
{
    m.get(key).map(|entry| entry.value().clone())
}

/// Relies on `DashMap::insert`: afterwards `key` maps to `value`, replacing
/// any earlier entry.
#[verifier::external_body]
fn map_insert(m: &mut StoreMap, key: Vec<u8>, value: StoredValue)
    ensures
        map_contents(*final(m)) == map_contents(*old(m)).insert(key@, (value.0@, value.1)),
{
    m.insert(key, value);
}

/// Relies on `DashMap::remove`: afterwards there is no entry under `key`.
#[verifier::external_body]
fn map_remove(m: &mut StoreMap, key: &[u8])
    ensures
        map_contents(*final(m)) == map_contents(*old(m)).remove(key@),
{
    m.remove(key);
}

/// Relies on `DashMap::iter`: each key of the map once, in no set order.
#[verifier::external_body]
fn map_keys(m: &StoreMap) -> (r: Vec<Vec<u8>>)
    ensures
        r@.map_values(|k: Vec<u8>| k@).to_set() == map_contents(*m).dom(),
        r@.map_values(|k: Vec<u8>| k@).no_duplicates(),
{
    m.iter().map(|entry| entry.key().clone()).collect()
}

/// When an entry expires, in one of three forms.
#[derive(Debug, Clone, Copy, PartialEq, Eq, Structural)]
pub enum Expiry {
    /// A time to live, in milliseconds from now.
    Ttl(u64),
    /// A wall-clock deadline, in milliseconds since the Unix epoch.
    Deadline(u64),
    /// A deadline on the monotonic clock, in milliseconds.
    Instant(u64),
}

/// `now + d`, or `now` itself where the sum does not fit.
pub open spec fn offset_or_now(now: u64, d: int) -> u64 {
    if now + d <= u64::MAX {
        (now + d) as u64
    } else {
        now
    }
}

/// The monotonic deadline that `e` stands for at monotonic time `now` and
/// wall-clock time `unix_now`. A wall-clock deadline already past is `now`.
pub open spec fn spec_expiry_deadline(e: Expiry, now: u64, unix_now: u64) -> u64 {
    match e {
        Expiry::Instant(i) => i,
        Expiry::Ttl(ttl) => offset_or_now(now, ttl as int),
        Expiry::Deadline(ts) => if ts >= unix_now {
            offset_or_now(now, ts - unix_now)
        } else {
            now
        },
    }
}

impl Expiry {
    pub fn get_expiry_deadline(&self, now: u64, unix_now: u64) -> (r: u64)
        ensures
            r == spec_expiry_deadline(*self, now, unix_now),
    {
        match self {
            Expiry::Instant(instant) => *instant,
            Expiry::Ttl(ttl) => now.checked_add(*ttl).unwrap_or(now),
            Expiry::Deadline(timestamp) => {
                if *timestamp >= unix_now {
                    now.checked_add(*timestamp - unix_now).unwrap_or(now)
                } else {
                    now
                }
            },
        }
    }
}

/// An entry is expired at `now` once its deadline is not after `now`.
pub open spec fn is_expired_at(deadline: Option<u64>, now: u64) -> bool {
    match deadline {
        Some(d) => d <= now,
        None => false,
    }
}

/// An entry: key, value and optional monotonic deadline.
#[derive(Debug, Clone, PartialEq, Eq)]
pub struct DataUnit {
    pub key: Vec<u8>,
    pub value: Vec<u8>,
    pub expiry_deadline: Option<u64>,
}

impl View for DataUnit {
    type V = (Seq<u8>, Seq<u8>, Option<u64>);

    open spec fn view(&self) -> (Seq<u8>, Seq<u8>, Option<u64>) {
        (self.key@, self.value@, self.expiry_deadline)
    }
}

impl DataUnit {
    pub fn new(key: Vec<u8>, value: Vec<u8>, ttl: Option<Expiry>, now: u64, unix_now: u64) -> (r:
        DataUnit)
        ensures
            r.key@ == key@,
            r.value@ == value@,
            r.expiry_deadline == (match ttl {
                Some(e) => Some(spec_expiry_deadline(e, now, unix_now)),
                None => None,
            }),
    {
        let expiry_deadline = match ttl {
            Some(expiry) => Some(expiry.get_expiry_deadline(now, unix_now)),
            None => None,
        };
        DataUnit { key, value, expiry_deadline }
    }

    pub fn is_expired(&self, now: u64) -> (r: bool)
        ensures
            r == is_expired_at(self.expiry_deadline, now),
    {
        match self.expiry_deadline {
            Some(deadline) => now >= deadline,
            None => false,
        }
    }

    pub fn get_expiry_deadline(&self) -> (r: Option<u64>)
        ensures
            r == self.expiry_deadline,
    {
        self.expiry_deadline
    }
}

/// An entry past its deadline stays past it: once a key has expired, it is
/// expired at every later time.
pub proof fn lemma_expiry_is_monotonic(deadline: Option<u64>, t: u64, later: u64)
    requires
        is_expired_at(deadline, t),
        t <= later,
    ensures
        is_expired_at(deadline, later),
{
}

/// The role of this server in replication.
#[derive(Debug, PartialEq, Eq)]
pub enum ServerRole {
    Master,
    /// A follower of the master at this host and port.
    Slave((Vec<u8>, u16)),
}

pub open spec fn spec_role_name(role: ServerRole) -> Seq<u8> {
    match role {
        ServerRole::Master => seq![0x6du8, 0x61u8, 0x73u8, 0x74u8, 0x65u8, 0x72u8],
        ServerRole::Slave(_) => seq![0x73u8, 0x6cu8, 0x61u8, 0x76u8, 0x65u8],
    }
}

impl ServerRole {
    /// `master` or `slave`.
    pub fn name(&self) -> (r: Vec<u8>)
        ensures
            r@ == spec_role_name(*self),
    {
        match self {
            ServerRole::Master => {
                let r = vec![0x6du8, 0x61u8, 0x73u8, 0x74u8, 0x65u8, 0x72u8];
                assert(r@ =~= spec_role_name(*self));
                r
            },
            ServerRole::Slave(_) => {
                let r = vec![0x73u8, 0x6cu8, 0x61u8, 0x76u8, 0x65u8];
                assert(r@ =~= spec_role_name(*self));
                r
            },
        }
    }
}

/// The replication id this server announces.
pub open spec fn spec_replication_id() -> Seq<u8> {
    seq![
        0x38u8, 0x33u8, 0x37u8, 0x31u8, 0x62u8, 0x34u8, 0x66u8, 0x62u8, 0x31u8, 0x31u8,
        0x35u8, 0x35u8, 0x62u8, 0x37u8, 0x31u8, 0x66u8, 0x34u8, 0x61u8, 0x30u8, 0x34u8,
        0x64u8, 0x33u8, 0x65u8, 0x31u8, 0x62u8, 0x63u8, 0x33u8, 0x65u8, 0x31u8, 0x38u8,
        0x63u8, 0x34u8, 0x61u8, 0x39u8, 0x39u8, 0x30u8, 0x61u8, 0x65u8, 0x65u8, 0x62u8,
    ]
}

fn replication_id() -> (r: Vec<u8>)
    ensures
        r@ == spec_replication_id(),
{
    let r = vec![
        0x38u8, 0x33u8, 0x37u8, 0x31u8, 0x62u8, 0x34u8, 0x66u8, 0x62u8, 0x31u8, 0x31u8,
        0x35u8, 0x35u8, 0x62u8, 0x37u8, 0x31u8, 0x66u8, 0x34u8, 0x61u8, 0x30u8, 0x34u8,
        0x64u8, 0x33u8, 0x65u8, 0x31u8, 0x62u8, 0x63u8, 0x33u8, 0x65u8, 0x31u8, 0x38u8,
        0x63u8, 0x34u8, 0x61u8, 0x39u8, 0x39u8, 0x30u8, 0x61u8, 0x65u8, 0x65u8, 0x62u8,
    ];
    assert(r@ =~= spec_replication_id());
    r
}

/// Replication state: the role, the replication id and the offset.
#[derive(Debug, PartialEq, Eq)]
pub struct ReplicationData {
    pub role: ServerRole,
    pub master_repl_id: Vec<u8>,
    pub master_repl_offset: u64,
}

impl ReplicationData {
    pub fn server() -> (r: ReplicationData)
        ensures
            r.role == ServerRole::Master,
            r.master_repl_id@ == spec_replication_id(),
            r.master_repl_offset == 0,
    {
        ReplicationData { role: ServerRole::Master, master_repl_id: replication_id(), master_repl_offset: 0 }
    }

    pub fn slave(host: Vec<u8>, port: u16) -> (r: ReplicationData)
        ensures
            r.role == ServerRole::Slave((host, port)),
            r.master_repl_id@ == spec_replication_id(),
            r.master_repl_offset == 0,
    {
        ReplicationData {
            role: ServerRole::Slave((host, port)),
            master_repl_id: replication_id(),
            master_repl_offset: 0,
        }
    }
}

/// The server configuration; fixed once the server has started.
#[derive(Debug, PartialEq, Eq)]
pub struct DbConfig {
    pub db_dir: Vec<u8>,
    pub db_filename: Vec<u8>,
    pub listening_port: u16,
    pub replication_data: ReplicationData,
}

impl DbConfig {
    pub fn empty() -> (r: DbConfig)
        ensures
            r.db_dir@.len() == 0,
            r.db_filename@.len() == 0,
            r.listening_port == 0,
            r.replication_data.role == ServerRole::Master,
    {
        DbConfig {
            db_dir: Vec::new(),
            db_filename: Vec::new(),
            listening_port: 0,
            replication_data: ReplicationData::server(),
        }
    }

    pub fn new(
        db_dir: Vec<u8>,
        db_filename: Vec<u8>,
        listening_port: u16,
        replica_connection: Option<(Vec<u8>, u16)>,
    ) -> (r: DbConfig)
        ensures
            r.db_dir == db_dir,
            r.db_filename == db_filename,
            r.listening_port == listening_port,
            r.replication_data.role == (match replica_connection {
                None => ServerRole::Master,
                Some((host, port)) => ServerRole::Slave((host, port)),
            }),
            r.replication_data.master_repl_id@ == spec_replication_id(),
            r.replication_data.master_repl_offset == 0,
    {
        let replication_data = match replica_connection {
            None => ReplicationData::server(),
            Some((host, port)) => ReplicationData::slave(host, port),
        };
        DbConfig { db_dir, db_filename, listening_port, replication_data }
    }

    /// `<dir>/<dbfilename>`.
    pub fn get_full_db_file_path(&self) -> (r: Vec<u8>)
        ensures
            r@ == self.db_dir@ + seq![0x2fu8] + self.db_filename@,
    {
        let mut path: Vec<u8> = Vec::new();
        append(&mut path, self.db_dir.as_slice());
        path.push(0x2f);
        append(&mut path, self.db_filename.as_slice());
        path
    }
}

/// The entries that the records `es` put into `base`, one after the other;
/// a later record replaces an earlier one under the same key. Wall-clock
/// expiries become monotonic deadlines at `now` / `unix_now`.
pub open spec fn load_entries(
    base: Map<Seq<u8>, (Seq<u8>, Option<u64>)>,
    es: Seq<(Seq<u8>, Seq<u8>, Option<u64>)>,
    now: u64,
    unix_now: u64,
) -> Map<Seq<u8>, (Seq<u8>, Option<u64>)>
    decreases es.len(),
{
    if es.len() == 0 {
        base
    } else {
        let e = es.last();
        load_entries(base, es.drop_last(), now, unix_now).insert(
            e.0,
            (
                e.1,
                match e.2 {
                    Some(ts) => Some(spec_expiry_deadline(Expiry::Deadline(ts), now, unix_now)),
                    None => None,
                },
            ),
        )
    }
}

/// The entries of all sub-databases, loaded in order.
pub open spec fn load_database(
    subs: Seq<(DatabaseSubSectionHeader, Seq<(Seq<u8>, Seq<u8>, Option<u64>)>)>,
    now: u64,
    unix_now: u64,
) -> Map<Seq<u8>, (Seq<u8>, Option<u64>)>
    decreases subs.len(),
{
    if subs.len() == 0 {
        Map::empty()
    } else {
        load_entries(load_database(subs.drop_last(), now, unix_now), subs.last().1, now, unix_now)
    }
}

impl KeyValueDataUnit {
    /// The store entry for this record; its wall-clock expiry becomes a
    /// monotonic deadline.
    pub fn to_data_unit(&self, now: u64, unix_now: u64) -> (r: DataUnit)
        ensures
            r.key@ == self.key@,
            r.value@ == self.value@,
            r.expiry_deadline == (match self.expiry {
                Some(ts) => Some(spec_expiry_deadline(Expiry::Deadline(ts), now, unix_now)),
                None => None,
            }),
    {
        let expiry = match self.expiry {
            Some(ts) => Some(Expiry::Deadline(ts)),
            None => None,
        };
        DataUnit::new(self.key.clone(), self.value.clone(), expiry, now, unix_now)
    }
}

impl Database {
    /// A map holding the entries of every record, later records winning.
    pub fn to_dashmap(&self, now: u64, unix_now: u64) -> (m: StoreMap)
        ensures
            map_contents(m) == load_database(self@, now, unix_now),
    {
        let mut map = map_new();
        let mut i: usize = 0;
        while i < self.subsections.len()
            invariant
                i <= self@.len(),
                self@.len() == self.subsections@.len(),
                map_contents(map) == load_database(self@.subrange(0, i as int), now, unix_now),
            decreases self.subsections.len() - i,
        {
            let section = &self.subsections[i];
            let ghost before = map_contents(map);
            let mut j: usize = 0;
            while j < section.key_value_data_units.len()
                invariant
                    j <= section.key_value_data_units@.len(),
                    section@.1.len() == section.key_value_data_units@.len(),
                    map_contents(map) == load_entries(before, section@.1.subrange(0, j as int), now, unix_now),
                decreases section.key_value_data_units.len() - j,
            {
                let unit = section.key_value_data_units[j].to_data_unit(now, unix_now);
                proof {
                    let es = section@.1.subrange(0, j + 1);
                    assert(es.drop_last() =~= section@.1.subrange(0, j as int));
                    assert(es.last() == section.key_value_data_units@[j as int]@);
                }
                map_insert(&mut map, unit.key, (unit.value, unit.expiry_deadline));
                j = j + 1;
            }
            proof {
                assert(section@.1.subrange(0, j as int) =~= section@.1);
                let subs = self@.subrange(0, i + 1);
                assert(subs.drop_last() =~= self@.subrange(0, i as int));
                assert(subs.last() == section@);
            }
            i = i + 1;
        }
        assert(self@.subrange(0, i as int) =~= self@);
        map
    }
}

/// The live entry under `k` at `now` in the entries `c`.
pub open spec fn lookup(c: Map<Seq<u8>, (Seq<u8>, Option<u64>)>, k: Seq<u8>, now: u64) -> Option<
    (Seq<u8>, Option<u64>),
> {
    if c.contains_key(k) && !is_expired_at(c[k].1, now) {
        Some(c[k])
    } else {
        None
    }
}

/// The entries after a read of `k` at `now`: an expired entry under `k` is
/// gone, all else stays.
pub open spec fn after_get(c: Map<Seq<u8>, (Seq<u8>, Option<u64>)>, k: Seq<u8>, now: u64) -> Map<
    Seq<u8>,
    (Seq<u8>, Option<u64>),
> {
    if c.contains_key(k) && is_expired_at(c[k].1, now) {
        c.remove(k)
    } else {
        c
    }
}

fn is_expired_at_exec(deadline: Option<u64>, now: u64) -> (r: bool)
    ensures
        r == is_expired_at(deadline, now),
{
    match deadline {
        Some(d) => d <= now,
        None => false,
    }
}

/// An operation on the store, as its contract describes it.
pub enum StoreOp {
    /// `set` of a key to a value and deadline.
    Put(Seq<u8>, (Seq<u8>, Option<u64>)),
    /// `get` of a key at a time.
    Get(Seq<u8>, u64),
    /// `remove_key` of a key.
    Remove(Seq<u8>),
}

/// The entries after `op`.
pub open spec fn apply_op(c: Map<Seq<u8>, (Seq<u8>, Option<u64>)>, op: StoreOp) -> Map<
    Seq<u8>,
    (Seq<u8>, Option<u64>),
> {
    match op {
        StoreOp::Put(k, v) => c.insert(k, v),
        StoreOp::Get(k, now) => after_get(c, k, now),
        StoreOp::Remove(k) => c.remove(k),
    }
}

/// The entries after the operations `ops`, in order, from `c`.
pub open spec fn run_ops(c: Map<Seq<u8>, (Seq<u8>, Option<u64>)>, ops: Seq<StoreOp>) -> Map<
    Seq<u8>,
    (Seq<u8>, Option<u64>),
>
    decreases ops.len(),
{
    if ops.len() == 0 {
        c
    } else {
        apply_op(run_ops(c, ops.drop_last()), ops.last())
    }
}

/// Whatever runs before it, a read returns either an entry that was there
/// at the start or one that a `set` of that same key wrote: never a value
/// made up or taken from another key.
pub proof fn lemma_get_returns_a_set_value(
    c: Map<Seq<u8>, (Seq<u8>, Option<u64>)>,
    ops: Seq<StoreOp>,
    k: Seq<u8>,
    now: u64,
)
    ensures
        lookup(run_ops(c, ops), k, now) matches Some(v) ==> (c.contains_key(k) && c[k] == v)
            || exists|i: int| 0 <= i < ops.len() && ops[i] == StoreOp::Put(k, v),
    decreases ops.len(),
{
    if ops.len() > 0 {
        let prev = ops.drop_last();
        lemma_get_returns_a_set_value(c, prev, k, now);
        let before = run_ops(c, prev);
        if let Some(v) = lookup(run_ops(c, ops), k, now) {
            match ops.last() {
                StoreOp::Put(k2, v2) => {
                    if k2 == k {
                        assert(ops[ops.len() - 1] == StoreOp::Put(k, v));
                    } else {
                        assert(lookup(before, k, now) == Some(v));
                    }
                },
                StoreOp::Get(k2, t) => {
                    assert(before.contains_key(k) && before[k] == v);
                    assert(lookup(before, k, now) == Some(v));
                },
                StoreOp::Remove(k2) => {
                    assert(lookup(before, k, now) == Some(v));
                },
            }
            if !(c.contains_key(k) && c[k] == v) {
                if let StoreOp::Put(k2, v2) = ops.last() {
                    if k2 == k {
                        return;
                    }
                }
                let i = choose|i: int| 0 <= i < prev.len() && prev[i] == StoreOp::Put(k, v);
                assert(ops[i] == prev[i]);
            }
        }
    }
}

/// No operation in `ops` is a `set` of `k`.
pub open spec fn sets_no(ops: Seq<StoreOp>, k: Seq<u8>) -> bool {
    forall|i: int| 0 <= i < ops.len() ==> !(#[trigger] ops[i] matches StoreOp::Put(k2, _) && k2 == k)
}

/// Once a read at `t` has found `k` expired, every later read of `k` finds
/// nothing, whatever its time, until `k` is set again.
pub proof fn lemma_expired_stays_gone(
    c: Map<Seq<u8>, (Seq<u8>, Option<u64>)>,
    k: Seq<u8>,
    t: u64,
    ops: Seq<StoreOp>,
    later: u64,
)
    requires
        c.contains_key(k),
        is_expired_at(c[k].1, t),
        sets_no(ops, k),
    ensures
        lookup(run_ops(after_get(c, k, t), ops), k, later) is None,
        !run_ops(after_get(c, k, t), ops).contains_key(k),
    decreases ops.len(),
{
    if ops.len() > 0 {
        let prev = ops.drop_last();
        assert(sets_no(prev, k)) by {
            assert forall|i: int| 0 <= i < prev.len() implies !(#[trigger] prev[i] matches StoreOp::Put(
                k2,
                _,
            ) && k2 == k) by {
                assert(prev[i] == ops[i]);
            }
        }
        lemma_expired_stays_gone(c, k, t, prev, later);
        assert(!(ops[ops.len() - 1] matches StoreOp::Put(k2, _) && k2 == k));
    }
}

/// The store: a concurrent map of entries and the configuration.
pub struct DataStore {
    db: StoreMap,
    config: DbConfig,
}

impl DataStore {
    /// The entries, live or not yet removed.
    pub closed spec fn contents(&self) -> Map<Seq<u8>, (Seq<u8>, Option<u64>)> {
        map_contents(self.db)
    }

    pub closed spec fn spec_config(&self) -> DbConfig {
        self.config
    }

    /// A store with no entries.
    pub fn init(db_config: DbConfig) -> (r: DataStore)
        ensures
            r.contents() == no_entries(),
            r.spec_config() == db_config,
    {
        DataStore { db: map_new(), config: db_config }
    }

    /// A store that holds the entries of a decoded snapshot.
    pub fn with_database(db_config: DbConfig, database: &Database, now: u64, unix_now: u64) -> (r:
        DataStore)
        ensures
            r.contents() == load_database(database@, now, unix_now),
            r.spec_config() == db_config,
    {
        DataStore { db: database.to_dashmap(now, unix_now), config: db_config }
    }

    /// Every key held, expired or not, each once, in no set order.
    pub fn get_all_keys(&self) -> (r: Vec<Vec<u8>>)
        ensures
            r@.map_values(|k: Vec<u8>| k@).to_set() == self.contents().dom(),
            r@.map_values(|k: Vec<u8>| k@).no_duplicates(),
    {
        map_keys(&self.db)
    }

    pub fn get_config(&self) -> (r: &DbConfig)
        ensures
            *r == self.spec_config(),
    {
        &self.config
    }

    /// The entry under `key` if it is live at `now`. An entry found expired is
    /// removed and `None` returned; nothing else changes.
    pub fn get(&mut self, key: &[u8], now: u64) -> (r: Option<DataUnit>)
        ensures
            final(self).spec_config() == old(self).spec_config(),
            final(self).contents() == after_get(old(self).contents(), key@, now),
            match r {
                Some(u) => u.key@ == key@ && lookup(old(self).contents(), key@, now) == Some(
                    (u.value@, u.expiry_deadline),
                ),
                None => lookup(old(self).contents(), key@, now) is None,
            },
    {
        match map_get(&self.db, key) {
            None => None,
            Some((value, expiry_deadline)) => {
                let unit = DataUnit { key: copy_bytes(key), value, expiry_deadline };
                if unit.is_expired(now) {
                    self.remove_key(key);
                    None
                } else {
                    Some(unit)
                }
            },
        }
    }

    /// Whether a live entry is held under `key` at `now`; nothing is removed.
    pub fn is_live(&self, key: &[u8], now: u64) -> (r: bool)
        ensures
            r == lookup(self.contents(), key@, now) is Some,
    {
        match map_get(&self.db, key) {
            None => false,
            Some((_, expiry_deadline)) => !is_expired_at_exec(expiry_deadline, now),
        }
    }

    /// Removes the entry under `key`, if any.
    pub fn remove_key(&mut self, key: &[u8])
        ensures
            final(self).contents() == old(self).contents().remove(key@),
            final(self).spec_config() == old(self).spec_config(),
    {
        map_remove(&mut self.db, key);
    }

    /// Stores `value` under `key`, replacing any earlier entry.
    pub fn set(&mut self, key: Vec<u8>, value: DataUnit)
        ensures
            final(self).contents() == old(self).contents().insert(
                key@,
                (value.value@, value.expiry_deadline),
            ),
            final(self).spec_config() == old(self).spec_config(),
    {
        map_insert(&mut self.db, key, (value.value, value.expiry_deadline));
    }
}

/// A store with no entries and the configuration `db_config`: the handle
/// that the server passes to each connection.
pub fn init_db(db_config: DbConfig) -> (r: DataStore)
    ensures
        r.contents() == no_entries(),
        r.spec_config() == db_config,
{
    DataStore::init(db_config)
}

} // verus!
