//! What commands hold, as contracts see it, is of the kind that they are.
use vstd::prelude::*;

use crate::command::{Command, SetCondition, SetConditionView};
use crate::octets::content;

verus! {

/// A command of a kind is seen as one of that kind.
pub proof fn law_kinds_1(c: Command)
    ensures
        c is Object <==> c@ is Object,
        c is Auth <==> c@ is Auth,
        c is Acl <==> c@ is Acl,
        c is Get <==> c@ is Get,
        c is Getex <==> c@ is Getex,
        c is SetKey <==> c@ is SetKey,
        c is Mget <==> c@ is Mget,
        c is Mset <==> c@ is Mset,
        c is Msetex <==> c@ is Msetex,
        c is Lcs <==> c@ is Lcs,
        c is Digest <==> c@ is Digest,
        c is Del <==> c@ is Del,
        c is Exists <==> c@ is Exists,
        c is IncrBy <==> c@ is IncrBy,
        c is Expire <==> c@ is Expire,
        c is Persist <==> c@ is Persist,
        c is Ttl <==> c@ is Ttl,
        c is Cluster <==> c@ is Cluster,
        c is Client <==> c@ is Client,
        c is Asking <==> c@ is Asking,
        c is Readonly <==> c@ is Readonly,
        c is Readwrite <==> c@ is Readwrite,
        c is Wait <==> c@ is Wait,
        c is WaitAof <==> c@ is WaitAof,
        c is Migrate <==> c@ is Migrate,
        c is Hset <==> c@ is Hset,
        c is Hsetnx <==> c@ is Hsetnx,
        c is Hmset <==> c@ is Hmset,
        c is Hget <==> c@ is Hget,
        c is Hmget <==> c@ is Hmget,
        c is Hdel <==> c@ is Hdel,
        c is Hexists <==> c@ is Hexists,
        c is Hlen <==> c@ is Hlen,
        c is Hgetall <==> c@ is Hgetall,
        c is Hkeys <==> c@ is Hkeys,
        c is Hvals <==> c@ is Hvals,
        c is Hstrlen <==> c@ is Hstrlen,
        c is Hgetdel <==> c@ is Hgetdel,
        c is Lpush <==> c@ is Lpush,
        c is Rpush <==> c@ is Rpush,
{
}

/// A command of a kind is seen as one of that kind.
pub proof fn law_kinds_2(c: Command)
    ensures
        c is Lpushx <==> c@ is Lpushx,
        c is Rpushx <==> c@ is Rpushx,
        c is Lpop <==> c@ is Lpop,
        c is Rpop <==> c@ is Rpop,
        c is Lrange <==> c@ is Lrange,
        c is Llen <==> c@ is Llen,
        c is Lindex <==> c@ is Lindex,
        c is Blpop <==> c@ is Blpop,
        c is Brpop <==> c@ is Brpop,
        c is Sadd <==> c@ is Sadd,
        c is Srem <==> c@ is Srem,
        c is Smembers <==> c@ is Smembers,
        c is Sismember <==> c@ is Sismember,
        c is Scard <==> c@ is Scard,
        c is Spop <==> c@ is Spop,
        c is Sinter <==> c@ is Sinter,
        c is Sunion <==> c@ is Sunion,
        c is Sdiff <==> c@ is Sdiff,
        c is Sinterstore <==> c@ is Sinterstore,
        c is Sunionstore <==> c@ is Sunionstore,
        c is Sdiffstore <==> c@ is Sdiffstore,
        c is Sintercard <==> c@ is Sintercard,
        c is Sunioncard <==> c@ is Sunioncard,
        c is Sdiffcard <==> c@ is Sdiffcard,
        c is Zadd <==> c@ is Zadd,
        c is Zrem <==> c@ is Zrem,
        c is Zscore <==> c@ is Zscore,
        c is Zcard <==> c@ is Zcard,
        c is Zrank <==> c@ is Zrank,
        c is Zrevrank <==> c@ is Zrevrank,
        c is Zcount <==> c@ is Zcount,
        c is Zincrby <==> c@ is Zincrby,
        c is Zrange <==> c@ is Zrange,
        c is Zrangestore <==> c@ is Zrangestore,
        c is Zpopmin <==> c@ is Zpopmin,
        c is Zpopmax <==> c@ is Zpopmax,
        c is Bzpopmin <==> c@ is Bzpopmin,
        c is Bzpopmax <==> c@ is Bzpopmax,
        c is Zmpop <==> c@ is Zmpop,
        c is Bzmpop <==> c@ is Bzmpop,
{
}

/// A command of a kind is seen as one of that kind.
pub proof fn law_kinds_3(c: Command)
    ensures
        c is Zunionstore <==> c@ is Zunionstore,
        c is Zinterstore <==> c@ is Zinterstore,
        c is Zdiffstore <==> c@ is Zdiffstore,
        c is Zdiff <==> c@ is Zdiff,
        c is Zinter <==> c@ is Zinter,
        c is Zunion <==> c@ is Zunion,
        c is Zintercard <==> c@ is Zintercard,
        c is Type <==> c@ is Type,
        c is Dbsize <==> c@ is Dbsize,
        c is Select <==> c@ is Select,
        c is Slowlog <==> c@ is Slowlog,
        c is Debug <==> c@ is Debug,
        c is Flushdb <==> c@ is Flushdb,
        c is Flushall <==> c@ is Flushall,
        c is Touch <==> c@ is Touch,
        c is Rename <==> c@ is Rename,
        c is Setnx <==> c@ is Setnx,
        c is Getset <==> c@ is Getset,
        c is Getdel <==> c@ is Getdel,
        c is Append <==> c@ is Append,
        c is Strlen <==> c@ is Strlen,
        c is Msetnx <==> c@ is Msetnx,
        c is Save <==> c@ is Save,
        c is Bgsave <==> c@ is Bgsave,
        c is Bgrewriteaof <==> c@ is Bgrewriteaof,
        c is Lastsave <==> c@ is Lastsave,
        c is Ping <==> c@ is Ping,
        c is CommandDocs <==> c@ is CommandDocs,
        c is Info <==> c@ is Info,
        c is Replicaof <==> c@ is Replicaof,
        c is Psync <==> c@ is Psync,
        c is Replconf <==> c@ is Replconf,
        c is Role <==> c@ is Role,
        c is Eval <==> c@ is Eval,
        c is Evalsha <==> c@ is Evalsha,
        c is ScriptLoad <==> c@ is ScriptLoad,
        c is ScriptExists <==> c@ is ScriptExists,
        c is ScriptFlush <==> c@ is ScriptFlush,
        c is Tier <==> c@ is Tier,
        c is ConfigGet <==> c@ is ConfigGet,
{
}

/// A command of a kind is seen as one of that kind.
pub proof fn law_kinds_4(c: Command)
    ensures
        c is ConfigSet <==> c@ is ConfigSet,
        c is Shutdown <==> c@ is Shutdown,
        c is Quit <==> c@ is Quit,
        c is Subscribe <==> c@ is Subscribe,
        c is Unsubscribe <==> c@ is Unsubscribe,
        c is Psubscribe <==> c@ is Psubscribe,
        c is Punsubscribe <==> c@ is Punsubscribe,
        c is Publish <==> c@ is Publish,
        c is Spublish <==> c@ is Spublish,
        c is Ssubscribe <==> c@ is Ssubscribe,
        c is Sunsubscribe <==> c@ is Sunsubscribe,
        c is PubsubChannels <==> c@ is PubsubChannels,
        c is PubsubNumsub <==> c@ is PubsubNumsub,
        c is PubsubNumpat <==> c@ is PubsubNumpat,
        c is PubsubShardchannels <==> c@ is PubsubShardchannels,
        c is PubsubShardnumsub <==> c@ is PubsubShardnumsub,
        c is Keys <==> c@ is Keys,
        c is Scan <==> c@ is Scan,
        c is Randomkey <==> c@ is Randomkey,
        c is Expiretime <==> c@ is Expiretime,
        c is Multi <==> c@ is Multi,
        c is Exec <==> c@ is Exec,
        c is Discard <==> c@ is Discard,
        c is Watch <==> c@ is Watch,
        c is Unwatch <==> c@ is Unwatch,
        c is Setbit <==> c@ is Setbit,
        c is Getbit <==> c@ is Getbit,
        c is Bitcount <==> c@ is Bitcount,
        c is Bitpos <==> c@ is Bitpos,
        c is Bitop <==> c@ is Bitop,
        c is Sort <==> c@ is Sort,
        c is Pfadd <==> c@ is Pfadd,
        c is Pfcount <==> c@ is Pfcount,
        c is Pfmerge <==> c@ is Pfmerge,
        c is Dump <==> c@ is Dump,
        c is Restore <==> c@ is Restore,
        c is Xadd <==> c@ is Xadd,
        c is Xlen <==> c@ is Xlen,
        c is Xrange <==> c@ is Xrange,
        c is Xrevrange <==> c@ is Xrevrange,
{
}

/// A command of a kind is seen as one of that kind.
pub proof fn law_kinds_5(c: Command)
    ensures
        c is Xread <==> c@ is Xread,
        c is Xdel <==> c@ is Xdel,
        c is Xtrim <==> c@ is Xtrim,
        c is XgroupCreate <==> c@ is XgroupCreate,
        c is XgroupDestroy <==> c@ is XgroupDestroy,
        c is XgroupCreateConsumer <==> c@ is XgroupCreateConsumer,
        c is XgroupDelConsumer <==> c@ is XgroupDelConsumer,
        c is Xreadgroup <==> c@ is Xreadgroup,
        c is Xack <==> c@ is Xack,
        c is Xpending <==> c@ is Xpending,
        c is Hello <==> c@ is Hello,
        c is Reset <==> c@ is Reset,
        c is Time <==> c@ is Time,
        c is Echo <==> c@ is Echo,
        c is Hincrby <==> c@ is Hincrby,
        c is Hincrbyfloat <==> c@ is Hincrbyfloat,
        c is Hrandfield <==> c@ is Hrandfield,
        c is Hscan <==> c@ is Hscan,
        c is Smismember <==> c@ is Smismember,
        c is Srandmember <==> c@ is Srandmember,
        c is Smove <==> c@ is Smove,
        c is Sscan <==> c@ is Sscan,
        c is Zmscore <==> c@ is Zmscore,
        c is Zrandmember <==> c@ is Zrandmember,
        c is Zremrangebyrank <==> c@ is Zremrangebyrank,
        c is Zremrangebyscore <==> c@ is Zremrangebyscore,
        c is Zremrangebylex <==> c@ is Zremrangebylex,
        c is Zlexcount <==> c@ is Zlexcount,
        c is Zscan <==> c@ is Zscan,
        c is Ltrim <==> c@ is Ltrim,
        c is Lset <==> c@ is Lset,
        c is Lrem <==> c@ is Lrem,
        c is Lpos <==> c@ is Lpos,
        c is Linsert <==> c@ is Linsert,
        c is Lmove <==> c@ is Lmove,
        c is Blmove <==> c@ is Blmove,
        c is Lmpop <==> c@ is Lmpop,
        c is Blmpop <==> c@ is Blmpop,
        c is Incrbyfloat <==> c@ is Incrbyfloat,
        c is Setrange <==> c@ is Setrange,
{
}

/// A command of a kind is seen as one of that kind.
pub proof fn law_kinds_6(c: Command)
    ensures
        c is Getrange <==> c@ is Getrange,
        c is Vadd <==> c@ is Vadd,
        c is Vquery <==> c@ is Vquery,
        c is Vsim <==> c@ is Vsim,
        c is Vdel <==> c@ is Vdel,
        c is Vinfo <==> c@ is Vinfo,
        c is CrdtSet <==> c@ is CrdtSet,
        c is CrdtGet <==> c@ is CrdtGet,
        c is CrdtDel <==> c@ is CrdtDel,
        c is CrdtIncrby <==> c@ is CrdtIncrby,
        c is CrdtSadd <==> c@ is CrdtSadd,
        c is CrdtSmembers <==> c@ is CrdtSmembers,
        c is CrdtSrem <==> c@ is CrdtSrem,
        c is CrdtDump <==> c@ is CrdtDump,
        c is CrdtMerge <==> c@ is CrdtMerge,
        c is CrdtGc <==> c@ is CrdtGc,
        c is FunctionLoad <==> c@ is FunctionLoad,
        c is Fcall <==> c@ is Fcall,
        c is FunctionList <==> c@ is FunctionList,
        c is FunctionDelete <==> c@ is FunctionDelete,
        c is FunctionFlush <==> c@ is FunctionFlush,
        c is JsonSet <==> c@ is JsonSet,
        c is JsonGet <==> c@ is JsonGet,
        c is JsonDel <==> c@ is JsonDel,
        c is JsonType <==> c@ is JsonType,
        c is JsonNumIncrBy <==> c@ is JsonNumIncrBy,
        c is JsonNumMultBy <==> c@ is JsonNumMultBy,
        c is JsonStrAppend <==> c@ is JsonStrAppend,
        c is JsonStrLen <==> c@ is JsonStrLen,
        c is JsonArrAppend <==> c@ is JsonArrAppend,
        c is JsonArrLen <==> c@ is JsonArrLen,
        c is JsonArrPop <==> c@ is JsonArrPop,
        c is JsonObjKeys <==> c@ is JsonObjKeys,
        c is JsonObjLen <==> c@ is JsonObjLen,
        c is JsonToggle <==> c@ is JsonToggle,
        c is JsonClear <==> c@ is JsonClear,
        c is JsonMget <==> c@ is JsonMget,
        c is Geoadd <==> c@ is Geoadd,
        c is Geodist <==> c@ is Geodist,
        c is Geopos <==> c@ is Geopos,
{
}

/// A command of a kind is seen as one of that kind.
pub proof fn law_kinds_7(c: Command)
    ensures
        c is Geohash <==> c@ is Geohash,
        c is Georadius <==> c@ is Georadius,
        c is Georadiusbymember <==> c@ is Georadiusbymember,
        c is Geosearch <==> c@ is Geosearch,
        c is BfReserve <==> c@ is BfReserve,
        c is BfAdd <==> c@ is BfAdd,
        c is BfMadd <==> c@ is BfMadd,
        c is BfExists <==> c@ is BfExists,
        c is BfMexists <==> c@ is BfMexists,
        c is BfInfo <==> c@ is BfInfo,
        c is CfReserve <==> c@ is CfReserve,
        c is CfAdd <==> c@ is CfAdd,
        c is CfAddnx <==> c@ is CfAddnx,
        c is CfExists <==> c@ is CfExists,
        c is CfDel <==> c@ is CfDel,
        c is CfInfo <==> c@ is CfInfo,
        c is CmsInitbydim <==> c@ is CmsInitbydim,
        c is CmsInitbyprob <==> c@ is CmsInitbyprob,
        c is CmsIncrby <==> c@ is CmsIncrby,
        c is CmsQuery <==> c@ is CmsQuery,
        c is CmsInfo <==> c@ is CmsInfo,
        c is TopkReserve <==> c@ is TopkReserve,
        c is TopkAdd <==> c@ is TopkAdd,
        c is TopkQuery <==> c@ is TopkQuery,
        c is TopkList <==> c@ is TopkList,
        c is TopkInfo <==> c@ is TopkInfo,
        c is FtCreate <==> c@ is FtCreate,
        c is FtSearch <==> c@ is FtSearch,
        c is FtAggregate <==> c@ is FtAggregate,
        c is FtInfo <==> c@ is FtInfo,
        c is FtDropIndex <==> c@ is FtDropIndex,
        c is FtExplain <==> c@ is FtExplain,
        c is FtAdd <==> c@ is FtAdd,
        c is XdpInfo <==> c@ is XdpInfo,
        c is XdpRuleAdd <==> c@ is XdpRuleAdd,
        c is XdpRuleDel <==> c@ is XdpRuleDel,
        c is XdpRuleList <==> c@ is XdpRuleList,
        c is XdpStats <==> c@ is XdpStats,
        c is XdpPacket <==> c@ is XdpPacket,
        c is XdpSocket <==> c@ is XdpSocket,
{
}

/// A command of a kind is seen as one of that kind.
pub proof fn law_kinds_8(c: Command)
    ensures
        c is XdpInject <==> c@ is XdpInject,
        c is DflyCluster <==> c@ is DflyCluster,
        c is DflyMigrate <==> c@ is DflyMigrate,
        c is DflyFlow <==> c@ is DflyFlow,
        c is Stick <==> c@ is Stick,
        c is Unstick <==> c@ is Unstick,
        c is Sticky <==> c@ is Sticky,
        c is Delex <==> c@ is Delex,
        c is MemcachedSet <==> c@ is MemcachedSet,
        c is MemcachedAdd <==> c@ is MemcachedAdd,
        c is MemcachedReplace <==> c@ is MemcachedReplace,
        c is MemcachedGet <==> c@ is MemcachedGet,
        c is MemcachedDelete <==> c@ is MemcachedDelete,
        c is MemcachedIncr <==> c@ is MemcachedIncr,
        c is MemcachedDecr <==> c@ is MemcachedDecr,
        c is MemcachedStats <==> c@ is MemcachedStats,
        c is MemcachedVersion <==> c@ is MemcachedVersion,
        c is MemcachedQuit <==> c@ is MemcachedQuit,
        c is Memory <==> c@ is Memory,
        c is Unknown <==> c@ is Unknown,
{
}

/// A condition is seen as what it is.
pub proof fn law_conditions_of_set(x: bytes::Bytes)
    ensures
        SetCondition::Always@ == SetConditionView::Always,
        SetCondition::Nx@ == SetConditionView::Nx,
        SetCondition::Xx@ == SetConditionView::Xx,
        SetCondition::Ifeq(x)@ == SetConditionView::Ifeq(content(x)),
        SetCondition::Ifne(x)@ == SetConditionView::Ifne(content(x)),
        SetCondition::Ifdeq(x)@ == SetConditionView::Ifdeq(content(x)),
        SetCondition::Ifdne(x)@ == SetConditionView::Ifdne(content(x)),
{
}

} // verus!
