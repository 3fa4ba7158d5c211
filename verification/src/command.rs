//! The commands of the server, and the mathematical form in which contracts speak of them.
use bytes::Bytes;
use vstd::prelude::*;

use crate::lists::{
    condition_view, content_opt, contents, counted, listed, listed_pairs, listed_scores,
    login_view, node_weights, pair_contents, pending_view, places, text_opt, text_pairs, texts, KeyList,
    PairList, ScoreList,
};
use crate::octets::content;
use crate::operands::{
    Aggregate, ClientUnblockType, Double, GeoUnit, LexBound, LexBoundView, ListDirection,
    MsetexCondition, MsetexExpiry, Single, StreamAddId, StreamId, VectorMetric, XdpAction,
    ZAddFlags, ZRangeOpts, ZRangeOptsView,
};
use crate::search::{
    AggregateOptions, AggregateOptionsView, FieldMap, FieldTypeView, SchemaField, SchemaFieldView,
    SearchOptions, SearchOptionsView, schema_views,
};
use crate::time::Duration;

verus! {

/// What `CLUSTER SETSLOT` sets.
#[derive(Debug, Clone, PartialEq)]
pub enum SetSlotSubcommand {
    Migrating(String),
    Importing(String),
    Stable,
    Node(String),
}

/// What a [`SetSlotSubcommand`] holds.
pub enum SetSlotSubcommandView {
    Migrating(Seq<char>),
    Importing(Seq<char>),
    Stable,
    Node(Seq<char>),
}

impl View for SetSlotSubcommand {
    type V = SetSlotSubcommandView;

    open spec fn view(&self) -> SetSlotSubcommandView {
        match *self {
            SetSlotSubcommand::Migrating(x) => SetSlotSubcommandView::Migrating(x@),
            SetSlotSubcommand::Importing(x) => SetSlotSubcommandView::Importing(x@),
            SetSlotSubcommand::Stable => SetSlotSubcommandView::Stable,
            SetSlotSubcommand::Node(x) => SetSlotSubcommandView::Node(x@),
        }
    }
}

/// The subcommands of `CLUSTER`.
#[derive(Debug, Clone, PartialEq)]
#[allow(inconsistent_fields)]
pub enum ClusterSubcommand {
    KeySlot(Bytes),
    CountKeysInSlot(u16),
    GetKeysInSlot(u16, usize),
    SetSlot(u16, SetSlotSubcommand),
    Slots,
    Shards,
    Links,
    AddSlots(Vec<u16>),
    DelSlots(Vec<u16>),
    AddSlotsRange(Vec<(u16, u16)>),
    DelSlotsRange(Vec<(u16, u16)>),
    Nodes,
    Info,
    Meet { ip: String, port: u16 },
    MyId,
    MigrateSlot { slot: u16, host: String, port: u16 },
    Rebalance {
        host: Option<String>,
        port: Option<u16>,
        slots: Option<usize>,
        weights: Vec<(String, Double)>,
        simulate: bool,
        threshold: Double,
        pipeline: usize,
    },
    Check,
    Reshard { target_node_id: String, source_node_id: String, slots: usize },
    Failover { force: bool },
    Reset { hard: bool },
    Forget(String),
    Replicate(String),
    SaveConfig,
}

/// What a [`ClusterSubcommand`] holds.
#[allow(inconsistent_fields)]
pub enum ClusterSubcommandView {
    KeySlot(Seq<u8>),
    CountKeysInSlot(u16),
    GetKeysInSlot(u16, usize),
    SetSlot(u16, SetSlotSubcommandView),
    Slots,
    Shards,
    Links,
    AddSlots(Seq<u16>),
    DelSlots(Seq<u16>),
    AddSlotsRange(Seq<(u16, u16)>),
    DelSlotsRange(Seq<(u16, u16)>),
    Nodes,
    Info,
    Meet { ip: Seq<char>, port: u16 },
    MyId,
    MigrateSlot { slot: u16, host: Seq<char>, port: u16 },
    Rebalance {
        host: Option<Seq<char>>,
        port: Option<u16>,
        slots: Option<usize>,
        weights: Seq<(Seq<char>, Double)>,
        simulate: bool,
        threshold: Double,
        pipeline: usize,
    },
    Check,
    Reshard { target_node_id: Seq<char>, source_node_id: Seq<char>, slots: usize },
    Failover { force: bool },
    Reset { hard: bool },
    Forget(Seq<char>),
    Replicate(Seq<char>),
    SaveConfig,
}

impl View for ClusterSubcommand {
    type V = ClusterSubcommandView;

    open spec fn view(&self) -> ClusterSubcommandView {
        match *self {
            ClusterSubcommand::KeySlot(x) => ClusterSubcommandView::KeySlot(content(x)),
            ClusterSubcommand::CountKeysInSlot(x) => ClusterSubcommandView::CountKeysInSlot(x),
            ClusterSubcommand::GetKeysInSlot(x, y) => ClusterSubcommandView::GetKeysInSlot(x, y),
            ClusterSubcommand::SetSlot(x, y) => ClusterSubcommandView::SetSlot(x, y@),
            ClusterSubcommand::Slots => ClusterSubcommandView::Slots,
            ClusterSubcommand::Shards => ClusterSubcommandView::Shards,
            ClusterSubcommand::Links => ClusterSubcommandView::Links,
            ClusterSubcommand::AddSlots(x) => ClusterSubcommandView::AddSlots(x@),
            ClusterSubcommand::DelSlots(x) => ClusterSubcommandView::DelSlots(x@),
            ClusterSubcommand::AddSlotsRange(x) => ClusterSubcommandView::AddSlotsRange(x@),
            ClusterSubcommand::DelSlotsRange(x) => ClusterSubcommandView::DelSlotsRange(x@),
            ClusterSubcommand::Nodes => ClusterSubcommandView::Nodes,
            ClusterSubcommand::Info => ClusterSubcommandView::Info,
            ClusterSubcommand::Meet { ip, port } => ClusterSubcommandView::Meet { ip: ip@, port },
            ClusterSubcommand::MyId => ClusterSubcommandView::MyId,
            ClusterSubcommand::MigrateSlot { slot, host, port } => ClusterSubcommandView::MigrateSlot {
                slot,
                host: host@,
                port,
            },
            ClusterSubcommand::Rebalance {
                host,
                port,
                slots,
                weights,
                simulate,
                threshold,
                pipeline,
            } => ClusterSubcommandView::Rebalance {
                host: text_opt(host),
                port,
                slots,
                weights: node_weights(weights@),
                simulate,
                threshold,
                pipeline,
            },
            ClusterSubcommand::Check => ClusterSubcommandView::Check,
            ClusterSubcommand::Reshard {
                target_node_id,
                source_node_id,
                slots,
            } => ClusterSubcommandView::Reshard {
                target_node_id: target_node_id@,
                source_node_id: source_node_id@,
                slots,
            },
            ClusterSubcommand::Failover { force } => ClusterSubcommandView::Failover { force },
            ClusterSubcommand::Reset { hard } => ClusterSubcommandView::Reset { hard },
            ClusterSubcommand::Forget(x) => ClusterSubcommandView::Forget(x@),
            ClusterSubcommand::Replicate(x) => ClusterSubcommandView::Replicate(x@),
            ClusterSubcommand::SaveConfig => ClusterSubcommandView::SaveConfig,
        }
    }
}

/// The subcommands of `DFLYCLUSTER`.
#[derive(Debug, Clone, PartialEq)]
pub enum DflyClusterSubcommand {
    MyId,
    Config(String),
    GetSlotInfo(Vec<u16>),
    FlushSlots(Vec<(u16, u16)>),
    SlotMigrationStatus,
}

/// What a [`DflyClusterSubcommand`] holds.
pub enum DflyClusterSubcommandView {
    MyId,
    Config(Seq<char>),
    GetSlotInfo(Seq<u16>),
    FlushSlots(Seq<(u16, u16)>),
    SlotMigrationStatus,
}

impl View for DflyClusterSubcommand {
    type V = DflyClusterSubcommandView;

    open spec fn view(&self) -> DflyClusterSubcommandView {
        match *self {
            DflyClusterSubcommand::MyId => DflyClusterSubcommandView::MyId,
            DflyClusterSubcommand::Config(x) => DflyClusterSubcommandView::Config(x@),
            DflyClusterSubcommand::GetSlotInfo(x) => DflyClusterSubcommandView::GetSlotInfo(x@),
            DflyClusterSubcommand::FlushSlots(x) => DflyClusterSubcommandView::FlushSlots(x@),
            DflyClusterSubcommand::SlotMigrationStatus => DflyClusterSubcommandView::SlotMigrationStatus,
        }
    }
}

/// The subcommands of `DFLYMIGRATE`.
#[derive(Debug, Clone, PartialEq)]
pub enum DflyMigrateSubcommand {
    Init { source_id: String, num_shards: usize, slots: Vec<(u16, u16)> },
    Flow { source_id: String, flow_id: u64 },
    Ack { flow_id: u64 },
}

/// What a [`DflyMigrateSubcommand`] holds.
pub enum DflyMigrateSubcommandView {
    Init { source_id: Seq<char>, num_shards: usize, slots: Seq<(u16, u16)> },
    Flow { source_id: Seq<char>, flow_id: u64 },
    Ack { flow_id: u64 },
}

impl View for DflyMigrateSubcommand {
    type V = DflyMigrateSubcommandView;

    open spec fn view(&self) -> DflyMigrateSubcommandView {
        match *self {
            DflyMigrateSubcommand::Init {
                source_id,
                num_shards,
                slots,
            } => DflyMigrateSubcommandView::Init {
                source_id: source_id@,
                num_shards,
                slots: slots@,
            },
            DflyMigrateSubcommand::Flow { source_id, flow_id } => DflyMigrateSubcommandView::Flow {
                source_id: source_id@,
                flow_id,
            },
            DflyMigrateSubcommand::Ack { flow_id } => DflyMigrateSubcommandView::Ack { flow_id },
        }
    }
}

/// When `SET` sets its key.
#[derive(Debug, Clone, PartialEq)]
pub enum SetCondition {
    Always,
    Nx,
    Xx,
    Ifeq(Bytes),
    Ifne(Bytes),
    Ifdeq(Bytes),
    Ifdne(Bytes),
}

/// What a [`SetCondition`] holds.
pub enum SetConditionView {
    Always,
    Nx,
    Xx,
    Ifeq(Seq<u8>),
    Ifne(Seq<u8>),
    Ifdeq(Seq<u8>),
    Ifdne(Seq<u8>),
}

impl View for SetCondition {
    type V = SetConditionView;

    open spec fn view(&self) -> SetConditionView {
        match *self {
            SetCondition::Always => SetConditionView::Always,
            SetCondition::Nx => SetConditionView::Nx,
            SetCondition::Xx => SetConditionView::Xx,
            SetCondition::Ifeq(x) => SetConditionView::Ifeq(content(x)),
            SetCondition::Ifne(x) => SetConditionView::Ifne(content(x)),
            SetCondition::Ifdeq(x) => SetConditionView::Ifdeq(content(x)),
            SetCondition::Ifdne(x) => SetConditionView::Ifdne(content(x)),
        }
    }
}

/// The subcommands of `MEMORY`.
#[derive(Debug, Clone, PartialEq)]
pub enum MemorySubcommand {
    Usage { key: Bytes },
    Stats,
    Purge,
    Doctor,
    Defrag,
}

/// What a [`MemorySubcommand`] holds.
pub enum MemorySubcommandView {
    Usage { key: Seq<u8> },
    Stats,
    Purge,
    Doctor,
    Defrag,
}

impl View for MemorySubcommand {
    type V = MemorySubcommandView;

    open spec fn view(&self) -> MemorySubcommandView {
        match *self {
            MemorySubcommand::Usage { key } => MemorySubcommandView::Usage { key: content(key) },
            MemorySubcommand::Stats => MemorySubcommandView::Stats,
            MemorySubcommand::Purge => MemorySubcommandView::Purge,
            MemorySubcommand::Doctor => MemorySubcommandView::Doctor,
            MemorySubcommand::Defrag => MemorySubcommandView::Defrag,
        }
    }
}

/// The subcommands of `TIER`.
#[derive(Debug, Clone, PartialEq)]
pub enum TierSubcommand {
    Spill(Bytes),
    Load(Bytes),
    Info,
    SpillAll,
    Cool(Bytes),
    Decommit(Option<Bytes>),
    Gc,
    Snapshot(String),
}

/// What a [`TierSubcommand`] holds.
pub enum TierSubcommandView {
    Spill(Seq<u8>),
    Load(Seq<u8>),
    Info,
    SpillAll,
    Cool(Seq<u8>),
    Decommit(Option<Seq<u8>>),
    Gc,
    Snapshot(Seq<char>),
}

impl View for TierSubcommand {
    type V = TierSubcommandView;

    open spec fn view(&self) -> TierSubcommandView {
        match *self {
            TierSubcommand::Spill(x) => TierSubcommandView::Spill(content(x)),
            TierSubcommand::Load(x) => TierSubcommandView::Load(content(x)),
            TierSubcommand::Info => TierSubcommandView::Info,
            TierSubcommand::SpillAll => TierSubcommandView::SpillAll,
            TierSubcommand::Cool(x) => TierSubcommandView::Cool(content(x)),
            TierSubcommand::Decommit(x) => TierSubcommandView::Decommit(content_opt(x)),
            TierSubcommand::Gc => TierSubcommandView::Gc,
            TierSubcommand::Snapshot(x) => TierSubcommandView::Snapshot(x@),
        }
    }
}

/// The subcommands of `CLIENT`.
#[derive(Debug, Clone, PartialEq)]
pub enum ClientSubcommand {
    List(Vec<u64>),
    Info,
    SetName(String),
    GetName,
    Id,
    Kill(Vec<Bytes>),
    Tracking { enabled: bool, bcast: bool, prefixes: Vec<Bytes> },
    Caching(bool),
    Unblock { client_id: u64, unblock_type: ClientUnblockType },
    Pause(u64),
    Unpause,
    NoTouch(bool),
}

/// What a [`ClientSubcommand`] holds.
pub enum ClientSubcommandView {
    List(Seq<u64>),
    Info,
    SetName(Seq<char>),
    GetName,
    Id,
    Kill(Seq<Seq<u8>>),
    Tracking { enabled: bool, bcast: bool, prefixes: Seq<Seq<u8>> },
    Caching(bool),
    Unblock { client_id: u64, unblock_type: ClientUnblockType },
    Pause(u64),
    Unpause,
    NoTouch(bool),
}

impl View for ClientSubcommand {
    type V = ClientSubcommandView;

    open spec fn view(&self) -> ClientSubcommandView {
        match *self {
            ClientSubcommand::List(x) => ClientSubcommandView::List(x@),
            ClientSubcommand::Info => ClientSubcommandView::Info,
            ClientSubcommand::SetName(x) => ClientSubcommandView::SetName(x@),
            ClientSubcommand::GetName => ClientSubcommandView::GetName,
            ClientSubcommand::Id => ClientSubcommandView::Id,
            ClientSubcommand::Kill(x) => ClientSubcommandView::Kill(contents(x@)),
            ClientSubcommand::Tracking { enabled, bcast, prefixes } => ClientSubcommandView::Tracking {
                enabled,
                bcast,
                prefixes: contents(prefixes@),
            },
            ClientSubcommand::Caching(x) => ClientSubcommandView::Caching(x),
            ClientSubcommand::Unblock { client_id, unblock_type } => ClientSubcommandView::Unblock {
                client_id,
                unblock_type,
            },
            ClientSubcommand::Pause(x) => ClientSubcommandView::Pause(x),
            ClientSubcommand::Unpause => ClientSubcommandView::Unpause,
            ClientSubcommand::NoTouch(x) => ClientSubcommandView::NoTouch(x),
        }
    }
}

/// The subcommands of `ACL`.
#[derive(Debug, Clone, PartialEq)]
pub enum AclSubcommand {
    List,
    Users,
    GetUser(String),
    SetUser { username: String, rules: Vec<String> },
    DelUser(Vec<String>),
    WhoAmI,
    Cat,
}

/// What a [`AclSubcommand`] holds.
pub enum AclSubcommandView {
    List,
    Users,
    GetUser(Seq<char>),
    SetUser { username: Seq<char>, rules: Seq<Seq<char>> },
    DelUser(Seq<Seq<char>>),
    WhoAmI,
    Cat,
}

impl View for AclSubcommand {
    type V = AclSubcommandView;

    open spec fn view(&self) -> AclSubcommandView {
        match *self {
            AclSubcommand::List => AclSubcommandView::List,
            AclSubcommand::Users => AclSubcommandView::Users,
            AclSubcommand::GetUser(x) => AclSubcommandView::GetUser(x@),
            AclSubcommand::SetUser { username, rules } => AclSubcommandView::SetUser {
                username: username@,
                rules: texts(rules@),
            },
            AclSubcommand::DelUser(x) => AclSubcommandView::DelUser(texts(x@)),
            AclSubcommand::WhoAmI => AclSubcommandView::WhoAmI,
            AclSubcommand::Cat => AclSubcommandView::Cat,
        }
    }
}

/// The subcommands of `OBJECT`.
#[derive(Debug, Clone, PartialEq)]
pub enum ObjectSubcommand {
    Encoding(Bytes),
    Freq(Bytes),
    Idletime(Bytes),
    Refcount(Bytes),
    Help,
}

/// What a [`ObjectSubcommand`] holds.
pub enum ObjectSubcommandView {
    Encoding(Seq<u8>),
    Freq(Seq<u8>),
    Idletime(Seq<u8>),
    Refcount(Seq<u8>),
    Help,
}

impl View for ObjectSubcommand {
    type V = ObjectSubcommandView;

    open spec fn view(&self) -> ObjectSubcommandView {
        match *self {
            ObjectSubcommand::Encoding(x) => ObjectSubcommandView::Encoding(content(x)),
            ObjectSubcommand::Freq(x) => ObjectSubcommandView::Freq(content(x)),
            ObjectSubcommand::Idletime(x) => ObjectSubcommandView::Idletime(content(x)),
            ObjectSubcommand::Refcount(x) => ObjectSubcommandView::Refcount(content(x)),
            ObjectSubcommand::Help => ObjectSubcommandView::Help,
        }
    }
}

/// A command, with its operands.
#[derive(Debug, Clone, PartialEq)]
#[allow(inconsistent_fields)]
pub enum Command {
    Object(ObjectSubcommand),
    Auth { username: Option<String>, password: String },
    Acl(AclSubcommand),
    Get(Bytes),
    Getex { key: Bytes, expire_in: Option<Duration>, persist: bool },
    SetKey {
        key: Bytes,
        value: Bytes,
        expire_in: Option<Duration>,
        condition: SetCondition,
        get: bool,
        keepttl: bool,
        past_expired: bool,
    },
    Mget(Vec<Bytes>),
    Mset(Vec<(Bytes, Bytes)>),
    Msetex { pairs: Vec<(Bytes, Bytes)>, condition: MsetexCondition, expiry: MsetexExpiry },
    Lcs {
        key1: Bytes,
        key2: Bytes,
        len_only: bool,
        idx: bool,
        min_match_len: usize,
        with_match_len: bool,
    },
    Digest(Bytes),
    Del(KeyList),
    Exists(KeyList),
    IncrBy(Bytes, i64),
    Expire(Bytes, Duration),
    Persist(Bytes),
    Ttl(Bytes, bool),
    Cluster(ClusterSubcommand),
    Client(ClientSubcommand),
    Asking,
    Readonly,
    Readwrite,
    Wait { numreplicas: usize, timeout: u64 },
    WaitAof { numlocal: usize, numreplicas: usize, timeout: u64 },
    Migrate {
        host: String,
        port: u16,
        key: Option<Bytes>,
        keys: Vec<Bytes>,
        destination_db: u32,
        timeout_ms: u64,
        copy: bool,
        replace: bool,
    },
    Hset { key: Bytes, fields: PairList },
    Hsetnx { key: Bytes, field: Bytes, value: Bytes },
    Hmset { key: Bytes, fields: PairList },
    Hget { key: Bytes, field: Bytes },
    Hmget { key: Bytes, fields: Vec<Bytes> },
    Hdel { key: Bytes, fields: Vec<Bytes> },
    Hexists { key: Bytes, field: Bytes },
    Hlen(Bytes),
    Hgetall(Bytes),
    Hkeys(Bytes),
    Hvals(Bytes),
    Hstrlen { key: Bytes, field: Bytes },
    Hgetdel { key: Bytes, fields: Vec<Bytes> },
    Lpush { key: Bytes, values: KeyList },
    Rpush { key: Bytes, values: KeyList },
    Lpushx { key: Bytes, values: Vec<Bytes> },
    Rpushx { key: Bytes, values: Vec<Bytes> },
    Lpop { key: Bytes, count: Option<usize> },
    Rpop { key: Bytes, count: Option<usize> },
    Lrange { key: Bytes, start: i64, stop: i64 },
    Llen(Bytes),
    Lindex { key: Bytes, index: i64 },
    Blpop { keys: Vec<Bytes>, timeout: Double },
    Brpop { keys: Vec<Bytes>, timeout: Double },
    Sadd { key: Bytes, members: KeyList },
    Srem { key: Bytes, members: Vec<Bytes> },
    Smembers(Bytes),
    Sismember { key: Bytes, member: Bytes },
    Scard(Bytes),
    Spop { key: Bytes, count: Option<usize> },
    Sinter(Vec<Bytes>),
    Sunion(Vec<Bytes>),
    Sdiff(Vec<Bytes>),
    Sinterstore { destination: Bytes, keys: Vec<Bytes> },
    Sunionstore { destination: Bytes, keys: Vec<Bytes> },
    Sdiffstore { destination: Bytes, keys: Vec<Bytes> },
    Sintercard { keys: Vec<Bytes>, limit: usize },
    Sunioncard { keys: Vec<Bytes>, limit: usize },
    Sdiffcard { keys: Vec<Bytes>, limit: usize },
    Zadd { key: Bytes, elements: ScoreList, flags: ZAddFlags },
    Zrem { key: Bytes, members: Vec<Bytes> },
    Zscore { key: Bytes, member: Bytes },
    Zcard(Bytes),
    Zrank { key: Bytes, member: Bytes, with_score: bool },
    Zrevrank { key: Bytes, member: Bytes, with_score: bool },
    Zcount { key: Bytes, min: Double, min_inc: bool, max: Double, max_inc: bool },
    Zincrby { key: Bytes, delta: Double, member: Bytes },
    Zrange { key: Bytes, opts: ZRangeOpts },
    Zrangestore { dst: Bytes, src: Bytes, opts: ZRangeOpts },
    Zpopmin { key: Bytes, count: Option<usize> },
    Zpopmax { key: Bytes, count: Option<usize> },
    Bzpopmin { keys: Vec<Bytes>, timeout: Double },
    Bzpopmax { keys: Vec<Bytes>, timeout: Double },
    Zmpop { keys: Vec<Bytes>, is_min: bool, count: usize },
    Bzmpop { timeout: Double, keys: Vec<Bytes>, is_min: bool, count: usize },
    Zunionstore {
        destination: Bytes,
        keys: Vec<Bytes>,
        weights: Vec<Double>,
        aggregate: Aggregate,
    },
    Zinterstore {
        destination: Bytes,
        keys: Vec<Bytes>,
        weights: Vec<Double>,
        aggregate: Aggregate,
    },
    Zdiffstore { destination: Bytes, keys: Vec<Bytes> },
    Zdiff { keys: Vec<Bytes>, with_scores: bool },
    Zinter { keys: Vec<Bytes>, weights: Vec<Double>, aggregate: Aggregate, with_scores: bool },
    Zunion { keys: Vec<Bytes>, weights: Vec<Double>, aggregate: Aggregate, with_scores: bool },
    Zintercard { keys: Vec<Bytes>, limit: usize },
    Type(Bytes),
    Dbsize,
    Select(u32),
    Slowlog(Vec<Bytes>),
    Debug(Vec<Bytes>),
    Flushdb,
    Flushall,
    Touch(Vec<Bytes>),
    Rename { key: Bytes, newkey: Bytes, nx: bool },
    Setnx { key: Bytes, value: Bytes },
    Getset { key: Bytes, value: Bytes },
    Getdel(Bytes),
    Append { key: Bytes, value: Bytes },
    Strlen(Bytes),
    Msetnx(Vec<(Bytes, Bytes)>),
    Save,
    Bgsave,
    Bgrewriteaof,
    Lastsave,
    Ping(Option<Bytes>),
    CommandDocs,
    Info(Option<Bytes>),
    Replicaof { host: Bytes, port: Bytes },
    Psync { replid: Bytes, offset: i64 },
    Replconf(Vec<Bytes>),
    Role,
    Eval { script: Bytes, keys: Vec<Bytes>, args: Vec<Bytes> },
    Evalsha { sha: Bytes, keys: Vec<Bytes>, args: Vec<Bytes> },
    ScriptLoad(Bytes),
    ScriptExists(Vec<Bytes>),
    ScriptFlush,
    Tier(TierSubcommand),
    ConfigGet(Bytes),
    ConfigSet(Bytes, Bytes),
    Shutdown { save: Option<bool> },
    Quit,
    Subscribe(Vec<Bytes>),
    Unsubscribe(Vec<Bytes>),
    Psubscribe(Vec<Bytes>),
    Punsubscribe(Vec<Bytes>),
    Publish { channel: Bytes, message: Bytes },
    Spublish { channel: Bytes, message: Bytes },
    Ssubscribe(Vec<Bytes>),
    Sunsubscribe(Vec<Bytes>),
    PubsubChannels(Option<Bytes>),
    PubsubNumsub(Vec<Bytes>),
    PubsubNumpat,
    PubsubShardchannels(Option<Bytes>),
    PubsubShardnumsub(Vec<Bytes>),
    Keys(Bytes),
    Scan { cursor: u64, pattern: Option<Bytes>, count: Option<usize> },
    Randomkey,
    Expiretime(Bytes, bool),
    Multi,
    Exec,
    Discard,
    Watch(Vec<Bytes>),
    Unwatch,
    Setbit { key: Bytes, offset: usize, value: u8 },
    Getbit { key: Bytes, offset: usize },
    Bitcount { key: Bytes, start: Option<i64>, end: Option<i64> },
    Bitpos { key: Bytes, bit: u8, start: Option<i64>, end: Option<i64> },
    Bitop { op: String, destkey: Bytes, srckeys: Vec<Bytes> },
    Sort { key: Bytes, desc: bool, alpha: bool, store: Option<Bytes>, limit: Option<(i64, i64)> },
    Pfadd { key: Bytes, elements: Vec<Bytes> },
    Pfcount { keys: Vec<Bytes> },
    Pfmerge { destkey: Bytes, srckeys: Vec<Bytes> },
    Dump(Bytes),
    Restore { key: Bytes, ttl_ms: u64, serialized: Bytes, replace: bool, absttl: bool },
    Xadd {
        key: Bytes,
        nomkstream: bool,
        maxlen: Option<usize>,
        minid: Option<StreamId>,
        id: StreamAddId,
        fields: Vec<(Bytes, Bytes)>,
    },
    Xlen(Bytes),
    Xrange { key: Bytes, start: String, end: String, count: Option<usize> },
    Xrevrange { key: Bytes, end: String, start: String, count: Option<usize> },
    Xread { count: Option<usize>, block_ms: Option<u64>, keys: Vec<Bytes>, ids: Vec<String> },
    Xdel { key: Bytes, ids: Vec<StreamId> },
    Xtrim { key: Bytes, maxlen: Option<usize>, minid: Option<StreamId> },
    XgroupCreate { key: Bytes, group: Bytes, id: String, mkstream: bool },
    XgroupDestroy { key: Bytes, group: Bytes },
    XgroupCreateConsumer { key: Bytes, group: Bytes, consumer: Bytes },
    XgroupDelConsumer { key: Bytes, group: Bytes, consumer: Bytes },
    Xreadgroup {
        group: Bytes,
        consumer: Bytes,
        count: Option<usize>,
        block_ms: Option<u64>,
        noack: bool,
        keys: Vec<Bytes>,
        ids: Vec<String>,
    },
    Xack { key: Bytes, group: Bytes, ids: Vec<StreamId> },
    Xpending {
        key: Bytes,
        group: Bytes,
        range: Option<(StreamId, StreamId, usize, Option<Bytes>)>,
    },
    Hello { proto: Option<i64>, auth: Option<(String, String)>, setname: Option<String> },
    Reset,
    Time,
    Echo(Bytes),
    Hincrby { key: Bytes, field: Bytes, increment: i64 },
    Hincrbyfloat { key: Bytes, field: Bytes, increment: Double },
    Hrandfield { key: Bytes, count: Option<i64>, with_values: bool },
    Hscan { key: Bytes, cursor: usize, pattern: Option<Bytes>, count: Option<usize> },
    Smismember { key: Bytes, members: Vec<Bytes> },
    Srandmember { key: Bytes, count: Option<i64> },
    Smove { source: Bytes, destination: Bytes, member: Bytes },
    Sscan { key: Bytes, cursor: usize, pattern: Option<Bytes>, count: Option<usize> },
    Zmscore { key: Bytes, members: Vec<Bytes> },
    Zrandmember { key: Bytes, count: Option<i64>, with_scores: bool },
    Zremrangebyrank { key: Bytes, start: i64, stop: i64 },
    Zremrangebyscore {
        key: Bytes,
        min_score: Double,
        min_inc: bool,
        max_score: Double,
        max_inc: bool,
    },
    Zremrangebylex { key: Bytes, min: LexBound, max: LexBound },
    Zlexcount { key: Bytes, min: LexBound, max: LexBound },
    Zscan { key: Bytes, cursor: usize, pattern: Option<Bytes>, count: Option<usize> },
    Ltrim { key: Bytes, start: i64, stop: i64 },
    Lset { key: Bytes, index: i64, element: Bytes },
    Lrem { key: Bytes, count: i64, element: Bytes },
    Lpos {
        key: Bytes,
        element: Bytes,
        rank: Option<i64>,
        count: Option<usize>,
        maxlen: Option<usize>,
    },
    Linsert { key: Bytes, before: bool, pivot: Bytes, element: Bytes },
    Lmove { source: Bytes, destination: Bytes, where_from: ListDirection, where_to: ListDirection },
    Blmove {
        source: Bytes,
        destination: Bytes,
        where_from: ListDirection,
        where_to: ListDirection,
        timeout: Double,
    },
    Lmpop { keys: Vec<Bytes>, where_from: ListDirection, count: usize },
    Blmpop { timeout: Double, keys: Vec<Bytes>, where_from: ListDirection, count: usize },
    Incrbyfloat { key: Bytes, increment: Double },
    Setrange { key: Bytes, offset: usize, value: Bytes },
    Getrange { key: Bytes, start: i64, end: i64 },
    Vadd {
        index: String,
        key: Bytes,
        vector: Vec<Single>,
        metric: Option<VectorMetric>,
        quantize: bool,
        pq: bool,
        tiered: bool,
    },
    Vquery { index: String, k: usize, query: Vec<Single>, rerank: bool },
    Vsim { index: String, k1: Bytes, k2: Bytes, metric: Option<VectorMetric> },
    Vdel { index: String, key: Bytes },
    Vinfo(String),
    CrdtSet { key: Bytes, val: Bytes },
    CrdtGet(Bytes),
    CrdtDel(Bytes),
    CrdtIncrby { key: Bytes, delta: i64 },
    CrdtSadd { key: Bytes, member: Bytes },
    CrdtSmembers(Bytes),
    CrdtSrem { key: Bytes, member: Bytes },
    CrdtDump,
    CrdtMerge(Bytes),
    CrdtGc(Option<u64>),
    FunctionLoad { replace: bool, code: Bytes },
    Fcall { function: String, keys: Vec<Bytes>, args: Vec<Bytes> },
    FunctionList,
    FunctionDelete(String),
    FunctionFlush,
    JsonSet { key: Bytes, path: String, json_val: String, nx: bool, xx: bool },
    JsonGet { key: Bytes, paths: Vec<String> },
    JsonDel { key: Bytes, path: Option<String> },
    JsonType { key: Bytes, path: Option<String> },
    JsonNumIncrBy { key: Bytes, path: String, delta: Double },
    JsonNumMultBy { key: Bytes, path: String, factor: Double },
    JsonStrAppend { key: Bytes, path: Option<String>, value: String },
    JsonStrLen { key: Bytes, path: Option<String> },
    JsonArrAppend { key: Bytes, path: String, values: Vec<String> },
    JsonArrLen { key: Bytes, path: Option<String> },
    JsonArrPop { key: Bytes, path: Option<String>, index: Option<isize> },
    JsonObjKeys { key: Bytes, path: Option<String> },
    JsonObjLen { key: Bytes, path: Option<String> },
    JsonToggle { key: Bytes, path: String },
    JsonClear { key: Bytes, path: Option<String> },
    JsonMget { keys: Vec<Bytes>, path: String },
    Geoadd { key: Bytes, items: Vec<(Double, Double, Bytes)>, nx: bool, xx: bool, ch: bool },
    Geodist { key: Bytes, m1: Bytes, m2: Bytes, unit: Option<GeoUnit> },
    Geopos { key: Bytes, members: Vec<Bytes> },
    Geohash { key: Bytes, members: Vec<Bytes> },
    Georadius {
        key: Bytes,
        lon: Double,
        lat: Double,
        radius: Double,
        unit: GeoUnit,
        withcoord: bool,
        withdist: bool,
        withhash: bool,
        count: Option<usize>,
        asc: Option<bool>,
    },
    Georadiusbymember {
        key: Bytes,
        member: Bytes,
        radius: Double,
        unit: GeoUnit,
        withcoord: bool,
        withdist: bool,
        withhash: bool,
        count: Option<usize>,
        asc: Option<bool>,
    },
    Geosearch {
        key: Bytes,
        from_member: Option<Bytes>,
        from_lonlat: Option<(Double, Double)>,
        by_radius: Option<(Double, GeoUnit)>,
        by_box: Option<(Double, Double, GeoUnit)>,
        asc: Option<bool>,
        count: Option<usize>,
        withcoord: bool,
        withdist: bool,
        withhash: bool,
    },
    BfReserve { key: Bytes, error_rate: Double, capacity: usize },
    BfAdd { key: Bytes, item: Bytes },
    BfMadd { key: Bytes, items: Vec<Bytes> },
    BfExists { key: Bytes, item: Bytes },
    BfMexists { key: Bytes, items: Vec<Bytes> },
    BfInfo(Bytes),
    CfReserve { key: Bytes, capacity: usize },
    CfAdd { key: Bytes, item: Bytes },
    CfAddnx { key: Bytes, item: Bytes },
    CfExists { key: Bytes, item: Bytes },
    CfDel { key: Bytes, item: Bytes },
    CfInfo(Bytes),
    CmsInitbydim { key: Bytes, width: usize, depth: usize },
    CmsInitbyprob { key: Bytes, error: Double, probability: Double },
    CmsIncrby { key: Bytes, pairs: Vec<(Bytes, u64)> },
    CmsQuery { key: Bytes, items: Vec<Bytes> },
    CmsInfo(Bytes),
    TopkReserve { key: Bytes, topk: usize },
    TopkAdd { key: Bytes, items: Vec<Bytes> },
    TopkQuery { key: Bytes, items: Vec<Bytes> },
    TopkList(Bytes),
    TopkInfo(Bytes),
    FtCreate {
        index: String,
        on_type: String,
        prefixes: Vec<String>,
        fields: FieldMap,
        schema_fields: Vec<SchemaField>,
    },
    FtSearch { index: String, query: String, options: SearchOptions },
    FtAggregate { index: String, query: String, options: AggregateOptions },
    FtInfo(String),
    FtDropIndex { index: String, dd: bool },
    FtExplain { index: String, query: String },
    FtAdd { index: String, doc_id: String, score: Double, fields: Vec<(String, String)> },
    XdpInfo,
    XdpRuleAdd { action: XdpAction, cidr: String },
    XdpRuleDel(u32),
    XdpRuleList,
    XdpStats,
    XdpPacket(Bytes),
    XdpSocket(u32),
    XdpInject { queue_id: u32, payload: Bytes },
    DflyCluster(DflyClusterSubcommand),
    DflyMigrate(DflyMigrateSubcommand),
    DflyFlow { master_replid: String, sync_id: String, shard_id: usize, lsn: Option<u64> },
    Stick(Vec<Bytes>),
    Unstick(Vec<Bytes>),
    Sticky(Bytes),
    Delex { key: Bytes, condition: Option<(String, Bytes)> },
    MemcachedSet { key: Bytes, flags: u32, exptime: u32, bytes: usize, noreply: bool, data: Bytes },
    MemcachedAdd { key: Bytes, flags: u32, exptime: u32, bytes: usize, noreply: bool, data: Bytes },
    MemcachedReplace {
        key: Bytes,
        flags: u32,
        exptime: u32,
        bytes: usize,
        noreply: bool,
        data: Bytes,
    },
    MemcachedGet { keys: Vec<Bytes> },
    MemcachedDelete { key: Bytes, noreply: bool },
    MemcachedIncr { key: Bytes, value: u64, noreply: bool },
    MemcachedDecr { key: Bytes, value: u64, noreply: bool },
    MemcachedStats,
    MemcachedVersion,
    MemcachedQuit,
    Memory(MemorySubcommand),
    Unknown(String),
}

/// What a [`Command`] holds.
#[allow(inconsistent_fields)]
pub enum CommandView {
    Object(ObjectSubcommandView),
    Auth { username: Option<Seq<char>>, password: Seq<char> },
    Acl(AclSubcommandView),
    Get(Seq<u8>),
    Getex { key: Seq<u8>, expire_in: Option<Duration>, persist: bool },
    SetKey {
        key: Seq<u8>,
        value: Seq<u8>,
        expire_in: Option<Duration>,
        condition: SetConditionView,
        get: bool,
        keepttl: bool,
        past_expired: bool,
    },
    Mget(Seq<Seq<u8>>),
    Mset(Seq<(Seq<u8>, Seq<u8>)>),
    Msetex { pairs: Seq<(Seq<u8>, Seq<u8>)>, condition: MsetexCondition, expiry: MsetexExpiry },
    Lcs {
        key1: Seq<u8>,
        key2: Seq<u8>,
        len_only: bool,
        idx: bool,
        min_match_len: usize,
        with_match_len: bool,
    },
    Digest(Seq<u8>),
    Del(Seq<Seq<u8>>),
    Exists(Seq<Seq<u8>>),
    IncrBy(Seq<u8>, i64),
    Expire(Seq<u8>, Duration),
    Persist(Seq<u8>),
    Ttl(Seq<u8>, bool),
    Cluster(ClusterSubcommandView),
    Client(ClientSubcommandView),
    Asking,
    Readonly,
    Readwrite,
    Wait { numreplicas: usize, timeout: u64 },
    WaitAof { numlocal: usize, numreplicas: usize, timeout: u64 },
    Migrate {
        host: Seq<char>,
        port: u16,
        key: Option<Seq<u8>>,
        keys: Seq<Seq<u8>>,
        destination_db: u32,
        timeout_ms: u64,
        copy: bool,
        replace: bool,
    },
    Hset { key: Seq<u8>, fields: Seq<(Seq<u8>, Seq<u8>)> },
    Hsetnx { key: Seq<u8>, field: Seq<u8>, value: Seq<u8> },
    Hmset { key: Seq<u8>, fields: Seq<(Seq<u8>, Seq<u8>)> },
    Hget { key: Seq<u8>, field: Seq<u8> },
    Hmget { key: Seq<u8>, fields: Seq<Seq<u8>> },
    Hdel { key: Seq<u8>, fields: Seq<Seq<u8>> },
    Hexists { key: Seq<u8>, field: Seq<u8> },
    Hlen(Seq<u8>),
    Hgetall(Seq<u8>),
    Hkeys(Seq<u8>),
    Hvals(Seq<u8>),
    Hstrlen { key: Seq<u8>, field: Seq<u8> },
    Hgetdel { key: Seq<u8>, fields: Seq<Seq<u8>> },
    Lpush { key: Seq<u8>, values: Seq<Seq<u8>> },
    Rpush { key: Seq<u8>, values: Seq<Seq<u8>> },
    Lpushx { key: Seq<u8>, values: Seq<Seq<u8>> },
    Rpushx { key: Seq<u8>, values: Seq<Seq<u8>> },
    Lpop { key: Seq<u8>, count: Option<usize> },
    Rpop { key: Seq<u8>, count: Option<usize> },
    Lrange { key: Seq<u8>, start: i64, stop: i64 },
    Llen(Seq<u8>),
    Lindex { key: Seq<u8>, index: i64 },
    Blpop { keys: Seq<Seq<u8>>, timeout: Double },
    Brpop { keys: Seq<Seq<u8>>, timeout: Double },
    Sadd { key: Seq<u8>, members: Seq<Seq<u8>> },
    Srem { key: Seq<u8>, members: Seq<Seq<u8>> },
    Smembers(Seq<u8>),
    Sismember { key: Seq<u8>, member: Seq<u8> },
    Scard(Seq<u8>),
    Spop { key: Seq<u8>, count: Option<usize> },
    Sinter(Seq<Seq<u8>>),
    Sunion(Seq<Seq<u8>>),
    Sdiff(Seq<Seq<u8>>),
    Sinterstore { destination: Seq<u8>, keys: Seq<Seq<u8>> },
    Sunionstore { destination: Seq<u8>, keys: Seq<Seq<u8>> },
    Sdiffstore { destination: Seq<u8>, keys: Seq<Seq<u8>> },
    Sintercard { keys: Seq<Seq<u8>>, limit: usize },
    Sunioncard { keys: Seq<Seq<u8>>, limit: usize },
    Sdiffcard { keys: Seq<Seq<u8>>, limit: usize },
    Zadd { key: Seq<u8>, elements: Seq<(Double, Seq<u8>)>, flags: ZAddFlags },
    Zrem { key: Seq<u8>, members: Seq<Seq<u8>> },
    Zscore { key: Seq<u8>, member: Seq<u8> },
    Zcard(Seq<u8>),
    Zrank { key: Seq<u8>, member: Seq<u8>, with_score: bool },
    Zrevrank { key: Seq<u8>, member: Seq<u8>, with_score: bool },
    Zcount { key: Seq<u8>, min: Double, min_inc: bool, max: Double, max_inc: bool },
    Zincrby { key: Seq<u8>, delta: Double, member: Seq<u8> },
    Zrange { key: Seq<u8>, opts: ZRangeOptsView },
    Zrangestore { dst: Seq<u8>, src: Seq<u8>, opts: ZRangeOptsView },
    Zpopmin { key: Seq<u8>, count: Option<usize> },
    Zpopmax { key: Seq<u8>, count: Option<usize> },
    Bzpopmin { keys: Seq<Seq<u8>>, timeout: Double },
    Bzpopmax { keys: Seq<Seq<u8>>, timeout: Double },
    Zmpop { keys: Seq<Seq<u8>>, is_min: bool, count: usize },
    Bzmpop { timeout: Double, keys: Seq<Seq<u8>>, is_min: bool, count: usize },
    Zunionstore {
        destination: Seq<u8>,
        keys: Seq<Seq<u8>>,
        weights: Seq<Double>,
        aggregate: Aggregate,
    },
    Zinterstore {
        destination: Seq<u8>,
        keys: Seq<Seq<u8>>,
        weights: Seq<Double>,
        aggregate: Aggregate,
    },
    Zdiffstore { destination: Seq<u8>, keys: Seq<Seq<u8>> },
    Zdiff { keys: Seq<Seq<u8>>, with_scores: bool },
    Zinter { keys: Seq<Seq<u8>>, weights: Seq<Double>, aggregate: Aggregate, with_scores: bool },
    Zunion { keys: Seq<Seq<u8>>, weights: Seq<Double>, aggregate: Aggregate, with_scores: bool },
    Zintercard { keys: Seq<Seq<u8>>, limit: usize },
    Type(Seq<u8>),
    Dbsize,
    Select(u32),
    Slowlog(Seq<Seq<u8>>),
    Debug(Seq<Seq<u8>>),
    Flushdb,
    Flushall,
    Touch(Seq<Seq<u8>>),
    Rename { key: Seq<u8>, newkey: Seq<u8>, nx: bool },
    Setnx { key: Seq<u8>, value: Seq<u8> },
    Getset { key: Seq<u8>, value: Seq<u8> },
    Getdel(Seq<u8>),
    Append { key: Seq<u8>, value: Seq<u8> },
    Strlen(Seq<u8>),
    Msetnx(Seq<(Seq<u8>, Seq<u8>)>),
    Save,
    Bgsave,
    Bgrewriteaof,
    Lastsave,
    Ping(Option<Seq<u8>>),
    CommandDocs,
    Info(Option<Seq<u8>>),
    Replicaof { host: Seq<u8>, port: Seq<u8> },
    Psync { replid: Seq<u8>, offset: i64 },
    Replconf(Seq<Seq<u8>>),
    Role,
    Eval { script: Seq<u8>, keys: Seq<Seq<u8>>, args: Seq<Seq<u8>> },
    Evalsha { sha: Seq<u8>, keys: Seq<Seq<u8>>, args: Seq<Seq<u8>> },
    ScriptLoad(Seq<u8>),
    ScriptExists(Seq<Seq<u8>>),
    ScriptFlush,
    Tier(TierSubcommandView),
    ConfigGet(Seq<u8>),
    ConfigSet(Seq<u8>, Seq<u8>),
    Shutdown { save: Option<bool> },
    Quit,
    Subscribe(Seq<Seq<u8>>),
    Unsubscribe(Seq<Seq<u8>>),
    Psubscribe(Seq<Seq<u8>>),
    Punsubscribe(Seq<Seq<u8>>),
    Publish { channel: Seq<u8>, message: Seq<u8> },
    Spublish { channel: Seq<u8>, message: Seq<u8> },
    Ssubscribe(Seq<Seq<u8>>),
    Sunsubscribe(Seq<Seq<u8>>),
    PubsubChannels(Option<Seq<u8>>),
    PubsubNumsub(Seq<Seq<u8>>),
    PubsubNumpat,
    PubsubShardchannels(Option<Seq<u8>>),
    PubsubShardnumsub(Seq<Seq<u8>>),
    Keys(Seq<u8>),
    Scan { cursor: u64, pattern: Option<Seq<u8>>, count: Option<usize> },
    Randomkey,
    Expiretime(Seq<u8>, bool),
    Multi,
    Exec,
    Discard,
    Watch(Seq<Seq<u8>>),
    Unwatch,
    Setbit { key: Seq<u8>, offset: usize, value: u8 },
    Getbit { key: Seq<u8>, offset: usize },
    Bitcount { key: Seq<u8>, start: Option<i64>, end: Option<i64> },
    Bitpos { key: Seq<u8>, bit: u8, start: Option<i64>, end: Option<i64> },
    Bitop { op: Seq<char>, destkey: Seq<u8>, srckeys: Seq<Seq<u8>> },
    Sort {
        key: Seq<u8>,
        desc: bool,
        alpha: bool,
        store: Option<Seq<u8>>,
        limit: Option<(i64, i64)>,
    },
    Pfadd { key: Seq<u8>, elements: Seq<Seq<u8>> },
    Pfcount { keys: Seq<Seq<u8>> },
    Pfmerge { destkey: Seq<u8>, srckeys: Seq<Seq<u8>> },
    Dump(Seq<u8>),
    Restore { key: Seq<u8>, ttl_ms: u64, serialized: Seq<u8>, replace: bool, absttl: bool },
    Xadd {
        key: Seq<u8>,
        nomkstream: bool,
        maxlen: Option<usize>,
        minid: Option<StreamId>,
        id: StreamAddId,
        fields: Seq<(Seq<u8>, Seq<u8>)>,
    },
    Xlen(Seq<u8>),
    Xrange { key: Seq<u8>, start: Seq<char>, end: Seq<char>, count: Option<usize> },
    Xrevrange { key: Seq<u8>, end: Seq<char>, start: Seq<char>, count: Option<usize> },
    Xread { count: Option<usize>, block_ms: Option<u64>, keys: Seq<Seq<u8>>, ids: Seq<Seq<char>> },
    Xdel { key: Seq<u8>, ids: Seq<StreamId> },
    Xtrim { key: Seq<u8>, maxlen: Option<usize>, minid: Option<StreamId> },
    XgroupCreate { key: Seq<u8>, group: Seq<u8>, id: Seq<char>, mkstream: bool },
    XgroupDestroy { key: Seq<u8>, group: Seq<u8> },
    XgroupCreateConsumer { key: Seq<u8>, group: Seq<u8>, consumer: Seq<u8> },
    XgroupDelConsumer { key: Seq<u8>, group: Seq<u8>, consumer: Seq<u8> },
    Xreadgroup {
        group: Seq<u8>,
        consumer: Seq<u8>,
        count: Option<usize>,
        block_ms: Option<u64>,
        noack: bool,
        keys: Seq<Seq<u8>>,
        ids: Seq<Seq<char>>,
    },
    Xack { key: Seq<u8>, group: Seq<u8>, ids: Seq<StreamId> },
    Xpending {
        key: Seq<u8>,
        group: Seq<u8>,
        range: Option<(StreamId, StreamId, usize, Option<Seq<u8>>)>,
    },
    Hello { proto: Option<i64>, auth: Option<(Seq<char>, Seq<char>)>, setname: Option<Seq<char>> },
    Reset,
    Time,
    Echo(Seq<u8>),
    Hincrby { key: Seq<u8>, field: Seq<u8>, increment: i64 },
    Hincrbyfloat { key: Seq<u8>, field: Seq<u8>, increment: Double },
    Hrandfield { key: Seq<u8>, count: Option<i64>, with_values: bool },
    Hscan { key: Seq<u8>, cursor: usize, pattern: Option<Seq<u8>>, count: Option<usize> },
    Smismember { key: Seq<u8>, members: Seq<Seq<u8>> },
    Srandmember { key: Seq<u8>, count: Option<i64> },
    Smove { source: Seq<u8>, destination: Seq<u8>, member: Seq<u8> },
    Sscan { key: Seq<u8>, cursor: usize, pattern: Option<Seq<u8>>, count: Option<usize> },
    Zmscore { key: Seq<u8>, members: Seq<Seq<u8>> },
    Zrandmember { key: Seq<u8>, count: Option<i64>, with_scores: bool },
    Zremrangebyrank { key: Seq<u8>, start: i64, stop: i64 },
    Zremrangebyscore {
        key: Seq<u8>,
        min_score: Double,
        min_inc: bool,
        max_score: Double,
        max_inc: bool,
    },
    Zremrangebylex { key: Seq<u8>, min: LexBoundView, max: LexBoundView },
    Zlexcount { key: Seq<u8>, min: LexBoundView, max: LexBoundView },
    Zscan { key: Seq<u8>, cursor: usize, pattern: Option<Seq<u8>>, count: Option<usize> },
    Ltrim { key: Seq<u8>, start: i64, stop: i64 },
    Lset { key: Seq<u8>, index: i64, element: Seq<u8> },
    Lrem { key: Seq<u8>, count: i64, element: Seq<u8> },
    Lpos {
        key: Seq<u8>,
        element: Seq<u8>,
        rank: Option<i64>,
        count: Option<usize>,
        maxlen: Option<usize>,
    },
    Linsert { key: Seq<u8>, before: bool, pivot: Seq<u8>, element: Seq<u8> },
    Lmove {
        source: Seq<u8>,
        destination: Seq<u8>,
        where_from: ListDirection,
        where_to: ListDirection,
    },
    Blmove {
        source: Seq<u8>,
        destination: Seq<u8>,
        where_from: ListDirection,
        where_to: ListDirection,
        timeout: Double,
    },
    Lmpop { keys: Seq<Seq<u8>>, where_from: ListDirection, count: usize },
    Blmpop { timeout: Double, keys: Seq<Seq<u8>>, where_from: ListDirection, count: usize },
    Incrbyfloat { key: Seq<u8>, increment: Double },
    Setrange { key: Seq<u8>, offset: usize, value: Seq<u8> },
    Getrange { key: Seq<u8>, start: i64, end: i64 },
    Vadd {
        index: Seq<char>,
        key: Seq<u8>,
        vector: Seq<Single>,
        metric: Option<VectorMetric>,
        quantize: bool,
        pq: bool,
        tiered: bool,
    },
    Vquery { index: Seq<char>, k: usize, query: Seq<Single>, rerank: bool },
    Vsim { index: Seq<char>, k1: Seq<u8>, k2: Seq<u8>, metric: Option<VectorMetric> },
    Vdel { index: Seq<char>, key: Seq<u8> },
    Vinfo(Seq<char>),
    CrdtSet { key: Seq<u8>, val: Seq<u8> },
    CrdtGet(Seq<u8>),
    CrdtDel(Seq<u8>),
    CrdtIncrby { key: Seq<u8>, delta: i64 },
    CrdtSadd { key: Seq<u8>, member: Seq<u8> },
    CrdtSmembers(Seq<u8>),
    CrdtSrem { key: Seq<u8>, member: Seq<u8> },
    CrdtDump,
    CrdtMerge(Seq<u8>),
    CrdtGc(Option<u64>),
    FunctionLoad { replace: bool, code: Seq<u8> },
    Fcall { function: Seq<char>, keys: Seq<Seq<u8>>, args: Seq<Seq<u8>> },
    FunctionList,
    FunctionDelete(Seq<char>),
    FunctionFlush,
    JsonSet { key: Seq<u8>, path: Seq<char>, json_val: Seq<char>, nx: bool, xx: bool },
    JsonGet { key: Seq<u8>, paths: Seq<Seq<char>> },
    JsonDel { key: Seq<u8>, path: Option<Seq<char>> },
    JsonType { key: Seq<u8>, path: Option<Seq<char>> },
    JsonNumIncrBy { key: Seq<u8>, path: Seq<char>, delta: Double },
    JsonNumMultBy { key: Seq<u8>, path: Seq<char>, factor: Double },
    JsonStrAppend { key: Seq<u8>, path: Option<Seq<char>>, value: Seq<char> },
    JsonStrLen { key: Seq<u8>, path: Option<Seq<char>> },
    JsonArrAppend { key: Seq<u8>, path: Seq<char>, values: Seq<Seq<char>> },
    JsonArrLen { key: Seq<u8>, path: Option<Seq<char>> },
    JsonArrPop { key: Seq<u8>, path: Option<Seq<char>>, index: Option<isize> },
    JsonObjKeys { key: Seq<u8>, path: Option<Seq<char>> },
    JsonObjLen { key: Seq<u8>, path: Option<Seq<char>> },
    JsonToggle { key: Seq<u8>, path: Seq<char> },
    JsonClear { key: Seq<u8>, path: Option<Seq<char>> },
    JsonMget { keys: Seq<Seq<u8>>, path: Seq<char> },
    Geoadd { key: Seq<u8>, items: Seq<(Double, Double, Seq<u8>)>, nx: bool, xx: bool, ch: bool },
    Geodist { key: Seq<u8>, m1: Seq<u8>, m2: Seq<u8>, unit: Option<GeoUnit> },
    Geopos { key: Seq<u8>, members: Seq<Seq<u8>> },
    Geohash { key: Seq<u8>, members: Seq<Seq<u8>> },
    Georadius {
        key: Seq<u8>,
        lon: Double,
        lat: Double,
        radius: Double,
        unit: GeoUnit,
        withcoord: bool,
        withdist: bool,
        withhash: bool,
        count: Option<usize>,
        asc: Option<bool>,
    },
    Georadiusbymember {
        key: Seq<u8>,
        member: Seq<u8>,
        radius: Double,
        unit: GeoUnit,
        withcoord: bool,
        withdist: bool,
        withhash: bool,
        count: Option<usize>,
        asc: Option<bool>,
    },
    Geosearch {
        key: Seq<u8>,
        from_member: Option<Seq<u8>>,
        from_lonlat: Option<(Double, Double)>,
        by_radius: Option<(Double, GeoUnit)>,
        by_box: Option<(Double, Double, GeoUnit)>,
        asc: Option<bool>,
        count: Option<usize>,
        withcoord: bool,
        withdist: bool,
        withhash: bool,
    },
    BfReserve { key: Seq<u8>, error_rate: Double, capacity: usize },
    BfAdd { key: Seq<u8>, item: Seq<u8> },
    BfMadd { key: Seq<u8>, items: Seq<Seq<u8>> },
    BfExists { key: Seq<u8>, item: Seq<u8> },
    BfMexists { key: Seq<u8>, items: Seq<Seq<u8>> },
    BfInfo(Seq<u8>),
    CfReserve { key: Seq<u8>, capacity: usize },
    CfAdd { key: Seq<u8>, item: Seq<u8> },
    CfAddnx { key: Seq<u8>, item: Seq<u8> },
    CfExists { key: Seq<u8>, item: Seq<u8> },
    CfDel { key: Seq<u8>, item: Seq<u8> },
    CfInfo(Seq<u8>),
    CmsInitbydim { key: Seq<u8>, width: usize, depth: usize },
    CmsInitbyprob { key: Seq<u8>, error: Double, probability: Double },
    CmsIncrby { key: Seq<u8>, pairs: Seq<(Seq<u8>, u64)> },
    CmsQuery { key: Seq<u8>, items: Seq<Seq<u8>> },
    CmsInfo(Seq<u8>),
    TopkReserve { key: Seq<u8>, topk: usize },
    TopkAdd { key: Seq<u8>, items: Seq<Seq<u8>> },
    TopkQuery { key: Seq<u8>, items: Seq<Seq<u8>> },
    TopkList(Seq<u8>),
    TopkInfo(Seq<u8>),
    FtCreate {
        index: Seq<char>,
        on_type: Seq<char>,
        prefixes: Seq<Seq<char>>,
        fields: Seq<(Seq<char>, FieldTypeView)>,
        schema_fields: Seq<SchemaFieldView>,
    },
    FtSearch { index: Seq<char>, query: Seq<char>, options: SearchOptionsView },
    FtAggregate { index: Seq<char>, query: Seq<char>, options: AggregateOptionsView },
    FtInfo(Seq<char>),
    FtDropIndex { index: Seq<char>, dd: bool },
    FtExplain { index: Seq<char>, query: Seq<char> },
    FtAdd {
        index: Seq<char>,
        doc_id: Seq<char>,
        score: Double,
        fields: Seq<(Seq<char>, Seq<char>)>,
    },
    XdpInfo,
    XdpRuleAdd { action: XdpAction, cidr: Seq<char> },
    XdpRuleDel(u32),
    XdpRuleList,
    XdpStats,
    XdpPacket(Seq<u8>),
    XdpSocket(u32),
    XdpInject { queue_id: u32, payload: Seq<u8> },
    DflyCluster(DflyClusterSubcommandView),
    DflyMigrate(DflyMigrateSubcommandView),
    DflyFlow { master_replid: Seq<char>, sync_id: Seq<char>, shard_id: usize, lsn: Option<u64> },
    Stick(Seq<Seq<u8>>),
    Unstick(Seq<Seq<u8>>),
    Sticky(Seq<u8>),
    Delex { key: Seq<u8>, condition: Option<(Seq<char>, Seq<u8>)> },
    MemcachedSet {
        key: Seq<u8>,
        flags: u32,
        exptime: u32,
        bytes: usize,
        noreply: bool,
        data: Seq<u8>,
    },
    MemcachedAdd {
        key: Seq<u8>,
        flags: u32,
        exptime: u32,
        bytes: usize,
        noreply: bool,
        data: Seq<u8>,
    },
    MemcachedReplace {
        key: Seq<u8>,
        flags: u32,
        exptime: u32,
        bytes: usize,
        noreply: bool,
        data: Seq<u8>,
    },
    MemcachedGet { keys: Seq<Seq<u8>> },
    MemcachedDelete { key: Seq<u8>, noreply: bool },
    MemcachedIncr { key: Seq<u8>, value: u64, noreply: bool },
    MemcachedDecr { key: Seq<u8>, value: u64, noreply: bool },
    MemcachedStats,
    MemcachedVersion,
    MemcachedQuit,
    Memory(MemorySubcommandView),
    Unknown(Seq<char>),
}

impl View for Command {
    type V = CommandView;

    open spec fn view(&self) -> CommandView {
        match *self {
            Command::Object(x) => CommandView::Object(x@),
            Command::Auth { username, password } => CommandView::Auth {
                username: text_opt(username),
                password: password@,
            },
            Command::Acl(x) => CommandView::Acl(x@),
            Command::Get(x) => CommandView::Get(content(x)),
            Command::Getex { key, expire_in, persist } => CommandView::Getex {
                key: content(key),
                expire_in,
                persist,
            },
            Command::SetKey {
                key,
                value,
                expire_in,
                condition,
                get,
                keepttl,
                past_expired,
            } => CommandView::SetKey {
                key: content(key),
                value: content(value),
                expire_in,
                condition: condition@,
                get,
                keepttl,
                past_expired,
            },
            Command::Mget(x) => CommandView::Mget(contents(x@)),
            Command::Mset(x) => CommandView::Mset(pair_contents(x@)),
            Command::Msetex { pairs, condition, expiry } => CommandView::Msetex {
                pairs: pair_contents(pairs@),
                condition,
                expiry,
            },
            Command::Lcs {
                key1,
                key2,
                len_only,
                idx,
                min_match_len,
                with_match_len,
            } => CommandView::Lcs {
                key1: content(key1),
                key2: content(key2),
                len_only,
                idx,
                min_match_len,
                with_match_len,
            },
            Command::Digest(x) => CommandView::Digest(content(x)),
            Command::Del(x) => CommandView::Del(listed(x)),
            Command::Exists(x) => CommandView::Exists(listed(x)),
            Command::IncrBy(x, y) => CommandView::IncrBy(content(x), y),
            Command::Expire(x, y) => CommandView::Expire(content(x), y),
            Command::Persist(x) => CommandView::Persist(content(x)),
            Command::Ttl(x, y) => CommandView::Ttl(content(x), y),
            Command::Cluster(x) => CommandView::Cluster(x@),
            Command::Client(x) => CommandView::Client(x@),
            Command::Asking => CommandView::Asking,
            Command::Readonly => CommandView::Readonly,
            Command::Readwrite => CommandView::Readwrite,
            Command::Wait { numreplicas, timeout } => CommandView::Wait { numreplicas, timeout },
            Command::WaitAof { numlocal, numreplicas, timeout } => CommandView::WaitAof {
                numlocal,
                numreplicas,
                timeout,
            },
            Command::Migrate {
                host,
                port,
                key,
                keys,
                destination_db,
                timeout_ms,
                copy,
                replace,
            } => CommandView::Migrate {
                host: host@,
                port,
                key: content_opt(key),
                keys: contents(keys@),
                destination_db,
                timeout_ms,
                copy,
                replace,
            },
            Command::Hset { key, fields } => CommandView::Hset {
                key: content(key),
                fields: listed_pairs(fields),
            },
            Command::Hsetnx { key, field, value } => CommandView::Hsetnx {
                key: content(key),
                field: content(field),
                value: content(value),
            },
            Command::Hmset { key, fields } => CommandView::Hmset {
                key: content(key),
                fields: listed_pairs(fields),
            },
            Command::Hget { key, field } => CommandView::Hget {
                key: content(key),
                field: content(field),
            },
            Command::Hmget { key, fields } => CommandView::Hmget {
                key: content(key),
                fields: contents(fields@),
            },
            Command::Hdel { key, fields } => CommandView::Hdel {
                key: content(key),
                fields: contents(fields@),
            },
            Command::Hexists { key, field } => CommandView::Hexists {
                key: content(key),
                field: content(field),
            },
            Command::Hlen(x) => CommandView::Hlen(content(x)),
            Command::Hgetall(x) => CommandView::Hgetall(content(x)),
            Command::Hkeys(x) => CommandView::Hkeys(content(x)),
            Command::Hvals(x) => CommandView::Hvals(content(x)),
            Command::Hstrlen { key, field } => CommandView::Hstrlen {
                key: content(key),
                field: content(field),
            },
            Command::Hgetdel { key, fields } => CommandView::Hgetdel {
                key: content(key),
                fields: contents(fields@),
            },
            Command::Lpush { key, values } => CommandView::Lpush {
                key: content(key),
                values: listed(values),
            },
            Command::Rpush { key, values } => CommandView::Rpush {
                key: content(key),
                values: listed(values),
            },
            Command::Lpushx { key, values } => CommandView::Lpushx {
                key: content(key),
                values: contents(values@),
            },
            Command::Rpushx { key, values } => CommandView::Rpushx {
                key: content(key),
                values: contents(values@),
            },
            Command::Lpop { key, count } => CommandView::Lpop { key: content(key), count },
            Command::Rpop { key, count } => CommandView::Rpop { key: content(key), count },
            Command::Lrange { key, start, stop } => CommandView::Lrange {
                key: content(key),
                start,
                stop,
            },
            Command::Llen(x) => CommandView::Llen(content(x)),
            Command::Lindex { key, index } => CommandView::Lindex { key: content(key), index },
            Command::Blpop { keys, timeout } => CommandView::Blpop {
                keys: contents(keys@),
                timeout,
            },
            Command::Brpop { keys, timeout } => CommandView::Brpop {
                keys: contents(keys@),
                timeout,
            },
            Command::Sadd { key, members } => CommandView::Sadd {
                key: content(key),
                members: listed(members),
            },
            Command::Srem { key, members } => CommandView::Srem {
                key: content(key),
                members: contents(members@),
            },
            Command::Smembers(x) => CommandView::Smembers(content(x)),
            Command::Sismember { key, member } => CommandView::Sismember {
                key: content(key),
                member: content(member),
            },
            Command::Scard(x) => CommandView::Scard(content(x)),
            Command::Spop { key, count } => CommandView::Spop { key: content(key), count },
            Command::Sinter(x) => CommandView::Sinter(contents(x@)),
            Command::Sunion(x) => CommandView::Sunion(contents(x@)),
            Command::Sdiff(x) => CommandView::Sdiff(contents(x@)),
            Command::Sinterstore { destination, keys } => CommandView::Sinterstore {
                destination: content(destination),
                keys: contents(keys@),
            },
            Command::Sunionstore { destination, keys } => CommandView::Sunionstore {
                destination: content(destination),
                keys: contents(keys@),
            },
            Command::Sdiffstore { destination, keys } => CommandView::Sdiffstore {
                destination: content(destination),
                keys: contents(keys@),
            },
            Command::Sintercard { keys, limit } => CommandView::Sintercard {
                keys: contents(keys@),
                limit,
            },
            Command::Sunioncard { keys, limit } => CommandView::Sunioncard {
                keys: contents(keys@),
                limit,
            },
            Command::Sdiffcard { keys, limit } => CommandView::Sdiffcard {
                keys: contents(keys@),
                limit,
            },
            Command::Zadd { key, elements, flags } => CommandView::Zadd {
                key: content(key),
                elements: listed_scores(elements),
                flags,
            },
            Command::Zrem { key, members } => CommandView::Zrem {
                key: content(key),
                members: contents(members@),
            },
            Command::Zscore { key, member } => CommandView::Zscore {
                key: content(key),
                member: content(member),
            },
            Command::Zcard(x) => CommandView::Zcard(content(x)),
            Command::Zrank { key, member, with_score } => CommandView::Zrank {
                key: content(key),
                member: content(member),
                with_score,
            },
            Command::Zrevrank { key, member, with_score } => CommandView::Zrevrank {
                key: content(key),
                member: content(member),
                with_score,
            },
            Command::Zcount { key, min, min_inc, max, max_inc } => CommandView::Zcount {
                key: content(key),
                min,
                min_inc,
                max,
                max_inc,
            },
            Command::Zincrby { key, delta, member } => CommandView::Zincrby {
                key: content(key),
                delta,
                member: content(member),
            },
            Command::Zrange { key, opts } => CommandView::Zrange { key: content(key), opts: opts@ },
            Command::Zrangestore { dst, src, opts } => CommandView::Zrangestore {
                dst: content(dst),
                src: content(src),
                opts: opts@,
            },
            Command::Zpopmin { key, count } => CommandView::Zpopmin { key: content(key), count },
            Command::Zpopmax { key, count } => CommandView::Zpopmax { key: content(key), count },
            Command::Bzpopmin { keys, timeout } => CommandView::Bzpopmin {
                keys: contents(keys@),
                timeout,
            },
            Command::Bzpopmax { keys, timeout } => CommandView::Bzpopmax {
                keys: contents(keys@),
                timeout,
            },
            Command::Zmpop { keys, is_min, count } => CommandView::Zmpop {
                keys: contents(keys@),
                is_min,
                count,
            },
            Command::Bzmpop { timeout, keys, is_min, count } => CommandView::Bzmpop {
                timeout,
                keys: contents(keys@),
                is_min,
                count,
            },
            Command::Zunionstore {
                destination,
                keys,
                weights,
                aggregate,
            } => CommandView::Zunionstore {
                destination: content(destination),
                keys: contents(keys@),
                weights: weights@,
                aggregate,
            },
            Command::Zinterstore {
                destination,
                keys,
                weights,
                aggregate,
            } => CommandView::Zinterstore {
                destination: content(destination),
                keys: contents(keys@),
                weights: weights@,
                aggregate,
            },
            Command::Zdiffstore { destination, keys } => CommandView::Zdiffstore {
                destination: content(destination),
                keys: contents(keys@),
            },
            Command::Zdiff { keys, with_scores } => CommandView::Zdiff {
                keys: contents(keys@),
                with_scores,
            },
            Command::Zinter { keys, weights, aggregate, with_scores } => CommandView::Zinter {
                keys: contents(keys@),
                weights: weights@,
                aggregate,
                with_scores,
            },
            Command::Zunion { keys, weights, aggregate, with_scores } => CommandView::Zunion {
                keys: contents(keys@),
                weights: weights@,
                aggregate,
                with_scores,
            },
            Command::Zintercard { keys, limit } => CommandView::Zintercard {
                keys: contents(keys@),
                limit,
            },
            Command::Type(x) => CommandView::Type(content(x)),
            Command::Dbsize => CommandView::Dbsize,
            Command::Select(x) => CommandView::Select(x),
            Command::Slowlog(x) => CommandView::Slowlog(contents(x@)),
            Command::Debug(x) => CommandView::Debug(contents(x@)),
            Command::Flushdb => CommandView::Flushdb,
            Command::Flushall => CommandView::Flushall,
            Command::Touch(x) => CommandView::Touch(contents(x@)),
            Command::Rename { key, newkey, nx } => CommandView::Rename {
                key: content(key),
                newkey: content(newkey),
                nx,
            },
            Command::Setnx { key, value } => CommandView::Setnx {
                key: content(key),
                value: content(value),
            },
            Command::Getset { key, value } => CommandView::Getset {
                key: content(key),
                value: content(value),
            },
            Command::Getdel(x) => CommandView::Getdel(content(x)),
            Command::Append { key, value } => CommandView::Append {
                key: content(key),
                value: content(value),
            },
            Command::Strlen(x) => CommandView::Strlen(content(x)),
            Command::Msetnx(x) => CommandView::Msetnx(pair_contents(x@)),
            Command::Save => CommandView::Save,
            Command::Bgsave => CommandView::Bgsave,
            Command::Bgrewriteaof => CommandView::Bgrewriteaof,
            Command::Lastsave => CommandView::Lastsave,
            Command::Ping(x) => CommandView::Ping(content_opt(x)),
            Command::CommandDocs => CommandView::CommandDocs,
            Command::Info(x) => CommandView::Info(content_opt(x)),
            Command::Replicaof { host, port } => CommandView::Replicaof {
                host: content(host),
                port: content(port),
            },
            Command::Psync { replid, offset } => CommandView::Psync {
                replid: content(replid),
                offset,
            },
            Command::Replconf(x) => CommandView::Replconf(contents(x@)),
            Command::Role => CommandView::Role,
            Command::Eval { script, keys, args } => CommandView::Eval {
                script: content(script),
                keys: contents(keys@),
                args: contents(args@),
            },
            Command::Evalsha { sha, keys, args } => CommandView::Evalsha {
                sha: content(sha),
                keys: contents(keys@),
                args: contents(args@),
            },
            Command::ScriptLoad(x) => CommandView::ScriptLoad(content(x)),
            Command::ScriptExists(x) => CommandView::ScriptExists(contents(x@)),
            Command::ScriptFlush => CommandView::ScriptFlush,
            Command::Tier(x) => CommandView::Tier(x@),
            Command::ConfigGet(x) => CommandView::ConfigGet(content(x)),
            Command::ConfigSet(x, y) => CommandView::ConfigSet(content(x), content(y)),
            Command::Shutdown { save } => CommandView::Shutdown { save },
            Command::Quit => CommandView::Quit,
            Command::Subscribe(x) => CommandView::Subscribe(contents(x@)),
            Command::Unsubscribe(x) => CommandView::Unsubscribe(contents(x@)),
            Command::Psubscribe(x) => CommandView::Psubscribe(contents(x@)),
            Command::Punsubscribe(x) => CommandView::Punsubscribe(contents(x@)),
            Command::Publish { channel, message } => CommandView::Publish {
                channel: content(channel),
                message: content(message),
            },
            Command::Spublish { channel, message } => CommandView::Spublish {
                channel: content(channel),
                message: content(message),
            },
            Command::Ssubscribe(x) => CommandView::Ssubscribe(contents(x@)),
            Command::Sunsubscribe(x) => CommandView::Sunsubscribe(contents(x@)),
            Command::PubsubChannels(x) => CommandView::PubsubChannels(content_opt(x)),
            Command::PubsubNumsub(x) => CommandView::PubsubNumsub(contents(x@)),
            Command::PubsubNumpat => CommandView::PubsubNumpat,
            Command::PubsubShardchannels(x) => CommandView::PubsubShardchannels(content_opt(x)),
            Command::PubsubShardnumsub(x) => CommandView::PubsubShardnumsub(contents(x@)),
            Command::Keys(x) => CommandView::Keys(content(x)),
            Command::Scan { cursor, pattern, count } => CommandView::Scan {
                cursor,
                pattern: content_opt(pattern),
                count,
            },
            Command::Randomkey => CommandView::Randomkey,
            Command::Expiretime(x, y) => CommandView::Expiretime(content(x), y),
            Command::Multi => CommandView::Multi,
            Command::Exec => CommandView::Exec,
            Command::Discard => CommandView::Discard,
            Command::Watch(x) => CommandView::Watch(contents(x@)),
            Command::Unwatch => CommandView::Unwatch,
            Command::Setbit { key, offset, value } => CommandView::Setbit {
                key: content(key),
                offset,
                value,
            },
            Command::Getbit { key, offset } => CommandView::Getbit { key: content(key), offset },
            Command::Bitcount { key, start, end } => CommandView::Bitcount {
                key: content(key),
                start,
                end,
            },
            Command::Bitpos { key, bit, start, end } => CommandView::Bitpos {
                key: content(key),
                bit,
                start,
                end,
            },
            Command::Bitop { op, destkey, srckeys } => CommandView::Bitop {
                op: op@,
                destkey: content(destkey),
                srckeys: contents(srckeys@),
            },
            Command::Sort { key, desc, alpha, store, limit } => CommandView::Sort {
                key: content(key),
                desc,
                alpha,
                store: content_opt(store),
                limit,
            },
            Command::Pfadd { key, elements } => CommandView::Pfadd {
                key: content(key),
                elements: contents(elements@),
            },
            Command::Pfcount { keys } => CommandView::Pfcount { keys: contents(keys@) },
            Command::Pfmerge { destkey, srckeys } => CommandView::Pfmerge {
                destkey: content(destkey),
                srckeys: contents(srckeys@),
            },
            Command::Dump(x) => CommandView::Dump(content(x)),
            Command::Restore { key, ttl_ms, serialized, replace, absttl } => CommandView::Restore {
                key: content(key),
                ttl_ms,
                serialized: content(serialized),
                replace,
                absttl,
            },
            Command::Xadd { key, nomkstream, maxlen, minid, id, fields } => CommandView::Xadd {
                key: content(key),
                nomkstream,
                maxlen,
                minid,
                id,
                fields: pair_contents(fields@),
            },
            Command::Xlen(x) => CommandView::Xlen(content(x)),
            Command::Xrange { key, start, end, count } => CommandView::Xrange {
                key: content(key),
                start: start@,
                end: end@,
                count,
            },
            Command::Xrevrange { key, end, start, count } => CommandView::Xrevrange {
                key: content(key),
                end: end@,
                start: start@,
                count,
            },
            Command::Xread { count, block_ms, keys, ids } => CommandView::Xread {
                count,
                block_ms,
                keys: contents(keys@),
                ids: texts(ids@),
            },
            Command::Xdel { key, ids } => CommandView::Xdel { key: content(key), ids: ids@ },
            Command::Xtrim { key, maxlen, minid } => CommandView::Xtrim {
                key: content(key),
                maxlen,
                minid,
            },
            Command::XgroupCreate { key, group, id, mkstream } => CommandView::XgroupCreate {
                key: content(key),
                group: content(group),
                id: id@,
                mkstream,
            },
            Command::XgroupDestroy { key, group } => CommandView::XgroupDestroy {
                key: content(key),
                group: content(group),
            },
            Command::XgroupCreateConsumer { key, group, consumer } => CommandView::XgroupCreateConsumer {
                key: content(key),
                group: content(group),
                consumer: content(consumer),
            },
            Command::XgroupDelConsumer { key, group, consumer } => CommandView::XgroupDelConsumer {
                key: content(key),
                group: content(group),
                consumer: content(consumer),
            },
            Command::Xreadgroup {
                group,
                consumer,
                count,
                block_ms,
                noack,
                keys,
                ids,
            } => CommandView::Xreadgroup {
                group: content(group),
                consumer: content(consumer),
                count,
                block_ms,
                noack,
                keys: contents(keys@),
                ids: texts(ids@),
            },
            Command::Xack { key, group, ids } => CommandView::Xack {
                key: content(key),
                group: content(group),
                ids: ids@,
            },
            Command::Xpending { key, group, range } => CommandView::Xpending {
                key: content(key),
                group: content(group),
                range: pending_view(range),
            },
            Command::Hello { proto, auth, setname } => CommandView::Hello {
                proto,
                auth: login_view(auth),
                setname: text_opt(setname),
            },
            Command::Reset => CommandView::Reset,
            Command::Time => CommandView::Time,
            Command::Echo(x) => CommandView::Echo(content(x)),
            Command::Hincrby { key, field, increment } => CommandView::Hincrby {
                key: content(key),
                field: content(field),
                increment,
            },
            Command::Hincrbyfloat { key, field, increment } => CommandView::Hincrbyfloat {
                key: content(key),
                field: content(field),
                increment,
            },
            Command::Hrandfield { key, count, with_values } => CommandView::Hrandfield {
                key: content(key),
                count,
                with_values,
            },
            Command::Hscan { key, cursor, pattern, count } => CommandView::Hscan {
                key: content(key),
                cursor,
                pattern: content_opt(pattern),
                count,
            },
            Command::Smismember { key, members } => CommandView::Smismember {
                key: content(key),
                members: contents(members@),
            },
            Command::Srandmember { key, count } => CommandView::Srandmember {
                key: content(key),
                count,
            },
            Command::Smove { source, destination, member } => CommandView::Smove {
                source: content(source),
                destination: content(destination),
                member: content(member),
            },
            Command::Sscan { key, cursor, pattern, count } => CommandView::Sscan {
                key: content(key),
                cursor,
                pattern: content_opt(pattern),
                count,
            },
            Command::Zmscore { key, members } => CommandView::Zmscore {
                key: content(key),
                members: contents(members@),
            },
            Command::Zrandmember { key, count, with_scores } => CommandView::Zrandmember {
                key: content(key),
                count,
                with_scores,
            },
            Command::Zremrangebyrank { key, start, stop } => CommandView::Zremrangebyrank {
                key: content(key),
                start,
                stop,
            },
            Command::Zremrangebyscore {
                key,
                min_score,
                min_inc,
                max_score,
                max_inc,
            } => CommandView::Zremrangebyscore {
                key: content(key),
                min_score,
                min_inc,
                max_score,
                max_inc,
            },
            Command::Zremrangebylex { key, min, max } => CommandView::Zremrangebylex {
                key: content(key),
                min: min@,
                max: max@,
            },
            Command::Zlexcount { key, min, max } => CommandView::Zlexcount {
                key: content(key),
                min: min@,
                max: max@,
            },
            Command::Zscan { key, cursor, pattern, count } => CommandView::Zscan {
                key: content(key),
                cursor,
                pattern: content_opt(pattern),
                count,
            },
            Command::Ltrim { key, start, stop } => CommandView::Ltrim {
                key: content(key),
                start,
                stop,
            },
            Command::Lset { key, index, element } => CommandView::Lset {
                key: content(key),
                index,
                element: content(element),
            },
            Command::Lrem { key, count, element } => CommandView::Lrem {
                key: content(key),
                count,
                element: content(element),
            },
            Command::Lpos { key, element, rank, count, maxlen } => CommandView::Lpos {
                key: content(key),
                element: content(element),
                rank,
                count,
                maxlen,
            },
            Command::Linsert { key, before, pivot, element } => CommandView::Linsert {
                key: content(key),
                before,
                pivot: content(pivot),
                element: content(element),
            },
            Command::Lmove { source, destination, where_from, where_to } => CommandView::Lmove {
                source: content(source),
                destination: content(destination),
                where_from,
                where_to,
            },
            Command::Blmove {
                source,
                destination,
                where_from,
                where_to,
                timeout,
            } => CommandView::Blmove {
                source: content(source),
                destination: content(destination),
                where_from,
                where_to,
                timeout,
            },
            Command::Lmpop { keys, where_from, count } => CommandView::Lmpop {
                keys: contents(keys@),
                where_from,
                count,
            },
            Command::Blmpop { timeout, keys, where_from, count } => CommandView::Blmpop {
                timeout,
                keys: contents(keys@),
                where_from,
                count,
            },
            Command::Incrbyfloat { key, increment } => CommandView::Incrbyfloat {
                key: content(key),
                increment,
            },
            Command::Setrange { key, offset, value } => CommandView::Setrange {
                key: content(key),
                offset,
                value: content(value),
            },
            Command::Getrange { key, start, end } => CommandView::Getrange {
                key: content(key),
                start,
                end,
            },
            Command::Vadd {
                index,
                key,
                vector,
                metric,
                quantize,
                pq,
                tiered,
            } => CommandView::Vadd {
                index: index@,
                key: content(key),
                vector: vector@,
                metric,
                quantize,
                pq,
                tiered,
            },
            Command::Vquery { index, k, query, rerank } => CommandView::Vquery {
                index: index@,
                k,
                query: query@,
                rerank,
            },
            Command::Vsim { index, k1, k2, metric } => CommandView::Vsim {
                index: index@,
                k1: content(k1),
                k2: content(k2),
                metric,
            },
            Command::Vdel { index, key } => CommandView::Vdel { index: index@, key: content(key) },
            Command::Vinfo(x) => CommandView::Vinfo(x@),
            Command::CrdtSet { key, val } => CommandView::CrdtSet {
                key: content(key),
                val: content(val),
            },
            Command::CrdtGet(x) => CommandView::CrdtGet(content(x)),
            Command::CrdtDel(x) => CommandView::CrdtDel(content(x)),
            Command::CrdtIncrby { key, delta } => CommandView::CrdtIncrby {
                key: content(key),
                delta,
            },
            Command::CrdtSadd { key, member } => CommandView::CrdtSadd {
                key: content(key),
                member: content(member),
            },
            Command::CrdtSmembers(x) => CommandView::CrdtSmembers(content(x)),
            Command::CrdtSrem { key, member } => CommandView::CrdtSrem {
                key: content(key),
                member: content(member),
            },
            Command::CrdtDump => CommandView::CrdtDump,
            Command::CrdtMerge(x) => CommandView::CrdtMerge(content(x)),
            Command::CrdtGc(x) => CommandView::CrdtGc(x),
            Command::FunctionLoad { replace, code } => CommandView::FunctionLoad {
                replace,
                code: content(code),
            },
            Command::Fcall { function, keys, args } => CommandView::Fcall {
                function: function@,
                keys: contents(keys@),
                args: contents(args@),
            },
            Command::FunctionList => CommandView::FunctionList,
            Command::FunctionDelete(x) => CommandView::FunctionDelete(x@),
            Command::FunctionFlush => CommandView::FunctionFlush,
            Command::JsonSet { key, path, json_val, nx, xx } => CommandView::JsonSet {
                key: content(key),
                path: path@,
                json_val: json_val@,
                nx,
                xx,
            },
            Command::JsonGet { key, paths } => CommandView::JsonGet {
                key: content(key),
                paths: texts(paths@),
            },
            Command::JsonDel { key, path } => CommandView::JsonDel {
                key: content(key),
                path: text_opt(path),
            },
            Command::JsonType { key, path } => CommandView::JsonType {
                key: content(key),
                path: text_opt(path),
            },
            Command::JsonNumIncrBy { key, path, delta } => CommandView::JsonNumIncrBy {
                key: content(key),
                path: path@,
                delta,
            },
            Command::JsonNumMultBy { key, path, factor } => CommandView::JsonNumMultBy {
                key: content(key),
                path: path@,
                factor,
            },
            Command::JsonStrAppend { key, path, value } => CommandView::JsonStrAppend {
                key: content(key),
                path: text_opt(path),
                value: value@,
            },
            Command::JsonStrLen { key, path } => CommandView::JsonStrLen {
                key: content(key),
                path: text_opt(path),
            },
            Command::JsonArrAppend { key, path, values } => CommandView::JsonArrAppend {
                key: content(key),
                path: path@,
                values: texts(values@),
            },
            Command::JsonArrLen { key, path } => CommandView::JsonArrLen {
                key: content(key),
                path: text_opt(path),
            },
            Command::JsonArrPop { key, path, index } => CommandView::JsonArrPop {
                key: content(key),
                path: text_opt(path),
                index,
            },
            Command::JsonObjKeys { key, path } => CommandView::JsonObjKeys {
                key: content(key),
                path: text_opt(path),
            },
            Command::JsonObjLen { key, path } => CommandView::JsonObjLen {
                key: content(key),
                path: text_opt(path),
            },
            Command::JsonToggle { key, path } => CommandView::JsonToggle {
                key: content(key),
                path: path@,
            },
            Command::JsonClear { key, path } => CommandView::JsonClear {
                key: content(key),
                path: text_opt(path),
            },
            Command::JsonMget { keys, path } => CommandView::JsonMget {
                keys: contents(keys@),
                path: path@,
            },
            Command::Geoadd { key, items, nx, xx, ch } => CommandView::Geoadd {
                key: content(key),
                items: places(items@),
                nx,
                xx,
                ch,
            },
            Command::Geodist { key, m1, m2, unit } => CommandView::Geodist {
                key: content(key),
                m1: content(m1),
                m2: content(m2),
                unit,
            },
            Command::Geopos { key, members } => CommandView::Geopos {
                key: content(key),
                members: contents(members@),
            },
            Command::Geohash { key, members } => CommandView::Geohash {
                key: content(key),
                members: contents(members@),
            },
            Command::Georadius {
                key,
                lon,
                lat,
                radius,
                unit,
                withcoord,
                withdist,
                withhash,
                count,
                asc,
            } => CommandView::Georadius {
                key: content(key),
                lon,
                lat,
                radius,
                unit,
                withcoord,
                withdist,
                withhash,
                count,
                asc,
            },
            Command::Georadiusbymember {
                key,
                member,
                radius,
                unit,
                withcoord,
                withdist,
                withhash,
                count,
                asc,
            } => CommandView::Georadiusbymember {
                key: content(key),
                member: content(member),
                radius,
                unit,
                withcoord,
                withdist,
                withhash,
                count,
                asc,
            },
            Command::Geosearch {
                key,
                from_member,
                from_lonlat,
                by_radius,
                by_box,
                asc,
                count,
                withcoord,
                withdist,
                withhash,
            } => CommandView::Geosearch {
                key: content(key),
                from_member: content_opt(from_member),
                from_lonlat,
                by_radius,
                by_box,
                asc,
                count,
                withcoord,
                withdist,
                withhash,
            },
            Command::BfReserve { key, error_rate, capacity } => CommandView::BfReserve {
                key: content(key),
                error_rate,
                capacity,
            },
            Command::BfAdd { key, item } => CommandView::BfAdd {
                key: content(key),
                item: content(item),
            },
            Command::BfMadd { key, items } => CommandView::BfMadd {
                key: content(key),
                items: contents(items@),
            },
            Command::BfExists { key, item } => CommandView::BfExists {
                key: content(key),
                item: content(item),
            },
            Command::BfMexists { key, items } => CommandView::BfMexists {
                key: content(key),
                items: contents(items@),
            },
            Command::BfInfo(x) => CommandView::BfInfo(content(x)),
            Command::CfReserve { key, capacity } => CommandView::CfReserve {
                key: content(key),
                capacity,
            },
            Command::CfAdd { key, item } => CommandView::CfAdd {
                key: content(key),
                item: content(item),
            },
            Command::CfAddnx { key, item } => CommandView::CfAddnx {
                key: content(key),
                item: content(item),
            },
            Command::CfExists { key, item } => CommandView::CfExists {
                key: content(key),
                item: content(item),
            },
            Command::CfDel { key, item } => CommandView::CfDel {
                key: content(key),
                item: content(item),
            },
            Command::CfInfo(x) => CommandView::CfInfo(content(x)),
            Command::CmsInitbydim { key, width, depth } => CommandView::CmsInitbydim {
                key: content(key),
                width,
                depth,
            },
            Command::CmsInitbyprob { key, error, probability } => CommandView::CmsInitbyprob {
                key: content(key),
                error,
                probability,
            },
            Command::CmsIncrby { key, pairs } => CommandView::CmsIncrby {
                key: content(key),
                pairs: counted(pairs@),
            },
            Command::CmsQuery { key, items } => CommandView::CmsQuery {
                key: content(key),
                items: contents(items@),
            },
            Command::CmsInfo(x) => CommandView::CmsInfo(content(x)),
            Command::TopkReserve { key, topk } => CommandView::TopkReserve {
                key: content(key),
                topk,
            },
            Command::TopkAdd { key, items } => CommandView::TopkAdd {
                key: content(key),
                items: contents(items@),
            },
            Command::TopkQuery { key, items } => CommandView::TopkQuery {
                key: content(key),
                items: contents(items@),
            },
            Command::TopkList(x) => CommandView::TopkList(content(x)),
            Command::TopkInfo(x) => CommandView::TopkInfo(content(x)),
            Command::FtCreate {
                index,
                on_type,
                prefixes,
                fields,
                schema_fields,
            } => CommandView::FtCreate {
                index: index@,
                on_type: on_type@,
                prefixes: texts(prefixes@),
                fields: fields@,
                schema_fields: schema_views(schema_fields@),
            },
            Command::FtSearch { index, query, options } => CommandView::FtSearch {
                index: index@,
                query: query@,
                options: options@,
            },
            Command::FtAggregate { index, query, options } => CommandView::FtAggregate {
                index: index@,
                query: query@,
                options: options@,
            },
            Command::FtInfo(x) => CommandView::FtInfo(x@),
            Command::FtDropIndex { index, dd } => CommandView::FtDropIndex { index: index@, dd },
            Command::FtExplain { index, query } => CommandView::FtExplain {
                index: index@,
                query: query@,
            },
            Command::FtAdd { index, doc_id, score, fields } => CommandView::FtAdd {
                index: index@,
                doc_id: doc_id@,
                score,
                fields: text_pairs(fields@),
            },
            Command::XdpInfo => CommandView::XdpInfo,
            Command::XdpRuleAdd { action, cidr } => CommandView::XdpRuleAdd { action, cidr: cidr@ },
            Command::XdpRuleDel(x) => CommandView::XdpRuleDel(x),
            Command::XdpRuleList => CommandView::XdpRuleList,
            Command::XdpStats => CommandView::XdpStats,
            Command::XdpPacket(x) => CommandView::XdpPacket(content(x)),
            Command::XdpSocket(x) => CommandView::XdpSocket(x),
            Command::XdpInject { queue_id, payload } => CommandView::XdpInject {
                queue_id,
                payload: content(payload),
            },
            Command::DflyCluster(x) => CommandView::DflyCluster(x@),
            Command::DflyMigrate(x) => CommandView::DflyMigrate(x@),
            Command::DflyFlow { master_replid, sync_id, shard_id, lsn } => CommandView::DflyFlow {
                master_replid: master_replid@,
                sync_id: sync_id@,
                shard_id,
                lsn,
            },
            Command::Stick(x) => CommandView::Stick(contents(x@)),
            Command::Unstick(x) => CommandView::Unstick(contents(x@)),
            Command::Sticky(x) => CommandView::Sticky(content(x)),
            Command::Delex { key, condition } => CommandView::Delex {
                key: content(key),
                condition: condition_view(condition),
            },
            Command::MemcachedSet {
                key,
                flags,
                exptime,
                bytes,
                noreply,
                data,
            } => CommandView::MemcachedSet {
                key: content(key),
                flags,
                exptime,
                bytes,
                noreply,
                data: content(data),
            },
            Command::MemcachedAdd {
                key,
                flags,
                exptime,
                bytes,
                noreply,
                data,
            } => CommandView::MemcachedAdd {
                key: content(key),
                flags,
                exptime,
                bytes,
                noreply,
                data: content(data),
            },
            Command::MemcachedReplace {
                key,
                flags,
                exptime,
                bytes,
                noreply,
                data,
            } => CommandView::MemcachedReplace {
                key: content(key),
                flags,
                exptime,
                bytes,
                noreply,
                data: content(data),
            },
            Command::MemcachedGet { keys } => CommandView::MemcachedGet { keys: contents(keys@) },
            Command::MemcachedDelete { key, noreply } => CommandView::MemcachedDelete {
                key: content(key),
                noreply,
            },
            Command::MemcachedIncr { key, value, noreply } => CommandView::MemcachedIncr {
                key: content(key),
                value,
                noreply,
            },
            Command::MemcachedDecr { key, value, noreply } => CommandView::MemcachedDecr {
                key: content(key),
                value,
                noreply,
            },
            Command::MemcachedStats => CommandView::MemcachedStats,
            Command::MemcachedVersion => CommandView::MemcachedVersion,
            Command::MemcachedQuit => CommandView::MemcachedQuit,
            Command::Memory(x) => CommandView::Memory(x@),
            Command::Unknown(x) => CommandView::Unknown(x@),
        }
    }
}

/// What a builder made, as contracts see it.
pub open spec fn built(r: Result<Command, String>) -> Result<CommandView, Seq<char>> {
    match r {
        Ok(c) => Ok(c@),
        Err(e) => Err(e@),
    }
}

pub open spec fn built_opt(r: Option<Result<Command, String>>) -> Option<
    Result<CommandView, Seq<char>>,
> {
    match r {
        Some(x) => Some(built(x)),
        None => None,
    }
}

} // verus!
