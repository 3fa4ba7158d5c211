//! Which family a name belongs to: every name belongs to one family alone.
use vstd::prelude::*;

use crate::readings::ParseEnv;
use super::named_command_spec;
use super::admin::admin_command_spec;
use super::bits::bits_command_spec;
use super::channels::channels_command_spec;
use super::fulltext::fulltext_command_spec;
use super::geo::geo_command_spec;
use super::hashes::hashes_command_spec;
use super::json::json_command_spec;
use super::keyspace::keyspace_command_spec;
use super::listcmds::listcmds_command_spec;
use super::modules::modules_command_spec;
use super::server::server_command_spec;
use super::sets::sets_command_spec;
use super::sketches::sketches_command_spec;
use super::streams::streams_command_spec;
use super::strings::strings_command_spec;
use super::zsets::zsets_command_spec;

verus! {

/// A character of a name, by its number; nought where the name is too short.
pub open spec fn letter(s: Seq<char>, i: int) -> int {
    if 0 <= i < s.len() {
        s[i] as int
    } else {
        0
    }
}

/// A number that tells the names of commands apart: made of some of their letters and their length.
#[verifier::opaque]
pub open spec fn name_code(s: Seq<char>) -> int {
    (((((letter(s, 0) * 256 + letter(s, 1)) * 256 + letter(s, 3)) * 256 + letter(s, 5)) * 256
        + letter(s, s.len() - 2)) * 256 + letter(s, s.len() - 3)) * 100 + s.len()
}

/// The names of the family `strings`.
pub open spec fn in_strings(name: Seq<char>) -> bool {
    ||| name == "GET"@
    ||| name == "GETEX"@
    ||| name == "SET"@
    ||| name == "PUT"@
    ||| name == "MGET"@
    ||| name == "MSET"@
    ||| name == "MSETEX"@
    ||| name == "LCS"@
    ||| name == "DEL"@
    ||| name == "UNLINK"@
    ||| name == "DELETE"@
    ||| name == "READONLY"@
    ||| name == "READWRITE"@
    ||| name == "WAIT"@
    ||| name == "WAITAOF"@
    ||| name == "OBJECT"@
    ||| name == "EXISTS"@
    ||| name == "INCR"@
    ||| name == "DECR"@
    ||| name == "INCRBY"@
    ||| name == "DECRBY"@
    ||| name == "EXPIRE"@
    ||| name == "PEXPIRE"@
    ||| name == "PERSIST"@
    ||| name == "TTL"@
    ||| name == "PTTL"@
    ||| name == "PING"@
    ||| name == "INCRBYFLOAT"@
    ||| name == "SETRANGE"@
    ||| name == "GETRANGE"@
    ||| name == "SUBSTR"@
}

/// The names of the family `server`.
pub open spec fn in_server(name: Seq<char>) -> bool {
    ||| name == "AUTH"@
    ||| name == "ACL"@
    ||| name == "CLUSTER"@
    ||| name == "ASKING"@
    ||| name == "MIGRATE"@
    ||| name == "CLIENT"@
}

/// The names of the family `hashes`.
pub open spec fn in_hashes(name: Seq<char>) -> bool {
    ||| name == "HSET"@
    ||| name == "HSETNX"@
    ||| name == "HMSET"@
    ||| name == "HGET"@
    ||| name == "HMGET"@
    ||| name == "HDEL"@
    ||| name == "HEXISTS"@
    ||| name == "HLEN"@
    ||| name == "HGETALL"@
    ||| name == "HKEYS"@
    ||| name == "HVALS"@
    ||| name == "HSTRLEN"@
    ||| name == "HGETDEL"@
    ||| name == "HINCRBY"@
    ||| name == "HINCRBYFLOAT"@
    ||| name == "HRANDFIELD"@
    ||| name == "HSCAN"@
}

/// The names of the family `listcmds`.
pub open spec fn in_listcmds(name: Seq<char>) -> bool {
    ||| name == "LPUSH"@
    ||| name == "RPUSH"@
    ||| name == "LPUSHX"@
    ||| name == "RPUSHX"@
    ||| name == "LPOP"@
    ||| name == "RPOP"@
    ||| name == "LRANGE"@
    ||| name == "LLEN"@
    ||| name == "LINDEX"@
    ||| name == "BLPOP"@
    ||| name == "BRPOP"@
    ||| name == "LMPOP"@
    ||| name == "BLMPOP"@
    ||| name == "LTRIM"@
    ||| name == "LSET"@
    ||| name == "LREM"@
    ||| name == "LPOS"@
    ||| name == "LINSERT"@
    ||| name == "LMOVE"@
    ||| name == "BLMOVE"@
    ||| name == "RPOPLPUSH"@
    ||| name == "BRPOPLPUSH"@
    ||| name == "SORT"@
    ||| name == "SORT_RO"@
}

/// The names of the family `sets`.
pub open spec fn in_sets(name: Seq<char>) -> bool {
    ||| name == "SADD"@
    ||| name == "SREM"@
    ||| name == "SMEMBERS"@
    ||| name == "SISMEMBER"@
    ||| name == "SCARD"@
    ||| name == "SPOP"@
    ||| name == "SINTER"@
    ||| name == "SINTERSTORE"@
    ||| name == "SUNION"@
    ||| name == "SUNIONSTORE"@
    ||| name == "SDIFF"@
    ||| name == "SDIFFSTORE"@
    ||| name == "SINTERCARD"@
    ||| name == "SUNIONCARD"@
    ||| name == "SDIFFCARD"@
    ||| name == "SMISMEMBER"@
    ||| name == "SRANDMEMBER"@
    ||| name == "SMOVE"@
    ||| name == "SSCAN"@
}

/// The names of the family `zsets`.
pub open spec fn in_zsets(name: Seq<char>) -> bool {
    ||| name == "ZADD"@
    ||| name == "ZREM"@
    ||| name == "ZSCORE"@
    ||| name == "ZCARD"@
    ||| name == "ZRANK"@
    ||| name == "ZREVRANK"@
    ||| name == "ZCOUNT"@
    ||| name == "ZINCRBY"@
    ||| name == "ZRANGE"@
    ||| name == "ZREVRANGE"@
    ||| name == "ZRANGEBYSCORE"@
    ||| name == "ZREVRANGEBYSCORE"@
    ||| name == "ZRANGEBYLEX"@
    ||| name == "ZREVRANGEBYLEX"@
    ||| name == "ZRANGESTORE"@
    ||| name == "ZPOPMIN"@
    ||| name == "ZPOPMAX"@
    ||| name == "BZPOPMIN"@
    ||| name == "BZPOPMAX"@
    ||| name == "ZMPOP"@
    ||| name == "BZMPOP"@
    ||| name == "ZUNIONSTORE"@
    ||| name == "ZINTERSTORE"@
    ||| name == "ZDIFFSTORE"@
    ||| name == "ZDIFF"@
    ||| name == "ZUNION"@
    ||| name == "ZINTER"@
    ||| name == "ZINTERCARD"@
    ||| name == "ZMSCORE"@
    ||| name == "ZRANDMEMBER"@
    ||| name == "ZREMRANGEBYRANK"@
    ||| name == "ZREMRANGEBYSCORE"@
    ||| name == "ZREMRANGEBYLEX"@
    ||| name == "ZLEXCOUNT"@
    ||| name == "ZSCAN"@
}

/// The names of the family `keyspace`.
pub open spec fn in_keyspace(name: Seq<char>) -> bool {
    ||| name == "TYPE"@
    ||| name == "DIGEST"@
    ||| name == "GETDEL"@
    ||| name == "STRLEN"@
    ||| name == "DUMP"@
    ||| name == "KEYS"@
    ||| name == "STICKY"@
    ||| name == "DBSIZE"@
    ||| name == "RANDOMKEY"@
    ||| name == "MULTI"@
    ||| name == "EXEC"@
    ||| name == "DISCARD"@
    ||| name == "UNWATCH"@
    ||| name == "TOUCH"@
    ||| name == "STICK"@
    ||| name == "UNSTICK"@
    ||| name == "WATCH"@
    ||| name == "SETNX"@
    ||| name == "GETSET"@
    ||| name == "APPEND"@
    ||| name == "SELECT"@
    ||| name == "EXPIREAT"@
    ||| name == "PEXPIREAT"@
    ||| name == "EXPIRETIME"@
    ||| name == "PEXPIRETIME"@
    ||| name == "RENAME"@
    ||| name == "RENAMENX"@
    ||| name == "FLUSHDB"@
    ||| name == "FLUSHALL"@
    ||| name == "SETEX"@
    ||| name == "PSETEX"@
    ||| name == "MSETNX"@
    ||| name == "DELEX"@
    ||| name == "SCAN"@
    ||| name == "RESTORE"@
}

/// The names of the family `admin`.
pub open spec fn in_admin(name: Seq<char>) -> bool {
    ||| name == "SAVE"@
    ||| name == "BGSAVE"@
    ||| name == "BGREWRITEAOF"@
    ||| name == "LASTSAVE"@
    ||| name == "ROLE"@
    ||| name == "QUIT"@
    ||| name == "COMMAND"@
    ||| name == "STATS"@
    ||| name == "VERSION"@
    ||| name == "SLOWLOG"@
    ||| name == "DEBUG"@
    ||| name == "MEMORY"@
    ||| name == "DEFRAG"@
    ||| name == "ACTIVE-DEFRAG"@
    ||| name == "INFO"@
    ||| name == "REPLICAOF"@
    ||| name == "SLAVEOF"@
    ||| name == "PSYNC"@
    ||| name == "REPLCONF"@
    ||| name == "EVAL"@
    ||| name == "EVAL_RO"@
    ||| name == "EVALSHA"@
    ||| name == "EVALSHA_RO"@
    ||| name == "SCRIPT"@
    ||| name == "TIER"@
    ||| name == "DFLYCLUSTER"@
    ||| name == "DFLY"@
    ||| name == "DFLYMIGRATE"@
    ||| name == "CONFIG"@
    ||| name == "SHUTDOWN"@
}

/// The names of the family `channels`.
pub open spec fn in_channels(name: Seq<char>) -> bool {
    ||| name == "SUBSCRIBE"@
    ||| name == "PSUBSCRIBE"@
    ||| name == "SSUBSCRIBE"@
    ||| name == "UNSUBSCRIBE"@
    ||| name == "PUNSUBSCRIBE"@
    ||| name == "SUNSUBSCRIBE"@
    ||| name == "PUBLISH"@
    ||| name == "SPUBLISH"@
    ||| name == "PUBSUB"@
}

/// The names of the family `bits`.
pub open spec fn in_bits(name: Seq<char>) -> bool {
    ||| name == "SETBIT"@
    ||| name == "GETBIT"@
    ||| name == "BITCOUNT"@
    ||| name == "BITPOS"@
    ||| name == "BITOP"@
    ||| name == "PFADD"@
    ||| name == "PFCOUNT"@
    ||| name == "PFMERGE"@
}

/// The names of the family `streams`.
pub open spec fn in_streams(name: Seq<char>) -> bool {
    ||| name == "XADD"@
    ||| name == "XLEN"@
    ||| name == "XRANGE"@
    ||| name == "XREVRANGE"@
    ||| name == "XREAD"@
    ||| name == "XREADGROUP"@
    ||| name == "XDEL"@
    ||| name == "XACK"@
    ||| name == "XTRIM"@
    ||| name == "XGROUP"@
    ||| name == "XPENDING"@
}

/// The names of the family `modules`.
pub open spec fn in_modules(name: Seq<char>) -> bool {
    ||| name == "HELLO"@
    ||| name == "RESET"@
    ||| name == "TIME"@
    ||| name == "ECHO"@
    ||| name == "VADD"@
    ||| name == "VQUERY"@
    ||| name == "CRDT.SET"@
    ||| name == "CRDT.GET"@
    ||| name == "CRDT.DEL"@
    ||| name == "CRDT.SMEMBERS"@
    ||| name == "CRDT.MERGE"@
    ||| name == "CRDT.INCRBY"@
    ||| name == "CRDT.SADD"@
    ||| name == "CRDT.SREM"@
    ||| name == "CRDT.DUMP"@
    ||| name == "CRDT.GC"@
    ||| name == "VSIM"@
    ||| name == "VDEL"@
    ||| name == "VINFO"@
    ||| name == "FUNCTION"@
    ||| name == "FCALL"@
    ||| name == "FCALL_RO"@
    ||| name == "XDP.INFO"@
    ||| name == "XDP.RULE"@
    ||| name == "XDP.STATS"@
    ||| name == "XDP.PACKET"@
    ||| name == "XDP.SOCKET"@
    ||| name == "XDP.INJECT"@
}

/// The names of the family `json`.
pub open spec fn in_json(name: Seq<char>) -> bool {
    ||| name == "JSON.SET"@
    ||| name == "JSON.GET"@
    ||| name == "JSON.DEL"@
    ||| name == "JSON.FORGET"@
    ||| name == "JSON.TYPE"@
    ||| name == "JSON.STRLEN"@
    ||| name == "JSON.ARRLEN"@
    ||| name == "JSON.OBJKEYS"@
    ||| name == "JSON.OBJLEN"@
    ||| name == "JSON.CLEAR"@
    ||| name == "JSON.NUMINCRBY"@
    ||| name == "JSON.NUMMULTBY"@
    ||| name == "JSON.STRAPPEND"@
    ||| name == "JSON.ARRAPPEND"@
    ||| name == "JSON.ARRPOP"@
    ||| name == "JSON.TOGGLE"@
    ||| name == "JSON.MGET"@
}

/// The names of the family `geo`.
pub open spec fn in_geo(name: Seq<char>) -> bool {
    ||| name == "GEOADD"@
    ||| name == "GEODIST"@
    ||| name == "GEOPOS"@
    ||| name == "GEOHASH"@
    ||| name == "GEORADIUS"@
    ||| name == "GEORADIUS_RO"@
    ||| name == "GEORADIUSBYMEMBER"@
    ||| name == "GEORADIUSBYMEMBER_RO"@
    ||| name == "GEOSEARCH"@
}

/// The names of the family `sketches`.
pub open spec fn in_sketches(name: Seq<char>) -> bool {
    ||| name == "BF.RESERVE"@
    ||| name == "BF.ADD"@
    ||| name == "BF.EXISTS"@
    ||| name == "CF.ADD"@
    ||| name == "CF.ADDNX"@
    ||| name == "CF.EXISTS"@
    ||| name == "CF.DEL"@
    ||| name == "BF.MADD"@
    ||| name == "BF.MEXISTS"@
    ||| name == "CMS.QUERY"@
    ||| name == "TOPK.ADD"@
    ||| name == "TOPK.QUERY"@
    ||| name == "BF.INFO"@
    ||| name == "CF.INFO"@
    ||| name == "CMS.INFO"@
    ||| name == "TOPK.LIST"@
    ||| name == "TOPK.INFO"@
    ||| name == "CF.RESERVE"@
    ||| name == "CMS.INITBYDIM"@
    ||| name == "CMS.INITBYPROB"@
    ||| name == "CMS.INCRBY"@
    ||| name == "TOPK.RESERVE"@
}

/// The names of the family `fulltext`.
pub open spec fn in_fulltext(name: Seq<char>) -> bool {
    ||| name == "FT.CREATE"@
    ||| name == "FT.SEARCH"@
    ||| name == "FT.AGGREGATE"@
    ||| name == "FT.INFO"@
    ||| name == "FT.DROPINDEX"@
    ||| name == "FT.EXPLAIN"@
    ||| name == "FT.ADD"@
}

/// The numbers of the names of `strings`.
pub(crate) proof fn lemma_strings_codes()
    ensures
        name_code("GET"@) == 7836167833325503,
        name_code("GETEX"@) == 7836283596117205,
        name_code("SET"@) == 9155581786657903,
        name_code("PUT"@) == 8832600246408003,
        name_code("MGET"@) == 8496874732064704,
        name_code("MSET"@) == 8502028692821104,
        name_code("MSETEX"@) == 8502029269538006,
        name_code("LCS"@) == 8385064653703603,
        name_code("DEL"@) == 7506314344992403,
        name_code("UNLINK"@) == 9379472548205706,
        name_code("DELETE"@) == 7506430560365306,
        name_code("READONLY"@) == 9045745220308608,
        name_code("READWRITE"@) == 9045745246727309,
        name_code("WAIT"@) == 9593809379564904,
        name_code("WAITAOF"@) == 9593809897452907,
        name_code("OBJECT"@) == 8714604958598906,
        name_code("EXISTS"@) == 7624565740859506,
        name_code("INCR"@) == 8060073202567804,
        name_code("DECR"@) == 7506451918112504,
        name_code("INCRBY"@) == 8060073785813006,
        name_code("DECRBY"@) == 7506452501358606,
        name_code("EXPIRE"@) == 7624548871840906,
        name_code("PEXPIRE"@) == 8825863053780107,
        name_code("PERSIST"@) == 8825868093524107,
        name_code("TTL"@) == 9271975400763603,
        name_code("PTTL"@) == 8832298256494804,
        name_code("PING"@) == 8827565403706504,
        name_code("INCRBYFLOAT"@) == 8060073785787111,
        name_code("SETRANGE"@) == 9155719871060608,
        name_code("GETRANGE"@) == 7836305917729408,
        name_code("SUBSTR"@) == 9162593523003506,
{
    reveal(name_code);
    reveal_strlit("GET");
    reveal_strlit("GETEX");
    reveal_strlit("SET");
    reveal_strlit("PUT");
    reveal_strlit("MGET");
    reveal_strlit("MSET");
    reveal_strlit("MSETEX");
    reveal_strlit("LCS");
    reveal_strlit("DEL");
    reveal_strlit("UNLINK");
    reveal_strlit("DELETE");
    reveal_strlit("READONLY");
    reveal_strlit("READWRITE");
    reveal_strlit("WAIT");
    reveal_strlit("WAITAOF");
    reveal_strlit("OBJECT");
    reveal_strlit("EXISTS");
    reveal_strlit("INCR");
    reveal_strlit("DECR");
    reveal_strlit("INCRBY");
    reveal_strlit("DECRBY");
    reveal_strlit("EXPIRE");
    reveal_strlit("PEXPIRE");
    reveal_strlit("PERSIST");
    reveal_strlit("TTL");
    reveal_strlit("PTTL");
    reveal_strlit("PING");
    reveal_strlit("INCRBYFLOAT");
    reveal_strlit("SETRANGE");
    reveal_strlit("GETRANGE");
    reveal_strlit("SUBSTR");
}

/// The numbers of the names of `server`.
pub(crate) proof fn lemma_server_codes()
    ensures
        name_code("AUTH"@) == 7183453600674104,
        name_code("ACL"@) == 7175601863148903,
        name_code("CLUSTER"@) == 7399509362414807,
        name_code("ASKING"@) == 7182596750087306,
        name_code("MIGRATE"@) == 8497730920966507,
        name_code("CLIENT"@) == 7399485972845306,
{
    reveal(name_code);
    reveal_strlit("AUTH");
    reveal_strlit("ACL");
    reveal_strlit("CLUSTER");
    reveal_strlit("ASKING");
    reveal_strlit("MIGRATE");
    reveal_strlit("CLIENT");
}

/// The numbers of the names of `hashes`.
pub(crate) proof fn lemma_hashes_codes()
    ensures
        name_code("HSET"@) == 7952272878933104,
        name_code("HSETNX"@) == 7952273455880406,
        name_code("HMSET"@) == 7949670732731505,
        name_code("HGET"@) == 7947118918176704,
        name_code("HMGET"@) == 7949670732730305,
        name_code("HDEL"@) == 7945817006214804,
        name_code("HEXISTS"@) == 7946242020667507,
        name_code("HLEN"@) == 7949256335495604,
        name_code("HGETALL"@) == 7947119416428907,
        name_code("HKEYS"@) == 7948845294214905,
        name_code("HVALS"@) == 7953547947526505,
        name_code("HSTRLEN"@) == 7952269975687607,
        name_code("HGETDEL"@) == 7947119370374807,
        name_code("HINCRBY"@) == 7947949822830607,
        name_code("HINCRBYFLOAT"@) == 7947949822804712,
        name_code("HRANDFIELD"@) == 7951833774803710,
        name_code("HSCAN"@) == 7952241002118705,
{
    reveal(name_code);
    reveal_strlit("HSET");
    reveal_strlit("HSETNX");
    reveal_strlit("HMSET");
    reveal_strlit("HGET");
    reveal_strlit("HMGET");
    reveal_strlit("HDEL");
    reveal_strlit("HEXISTS");
    reveal_strlit("HLEN");
    reveal_strlit("HGETALL");
    reveal_strlit("HKEYS");
    reveal_strlit("HVALS");
    reveal_strlit("HSTRLEN");
    reveal_strlit("HGETDEL");
    reveal_strlit("HINCRBY");
    reveal_strlit("HINCRBYFLOAT");
    reveal_strlit("HRANDFIELD");
    reveal_strlit("HSCAN");
}

/// The numbers of the names of `listcmds`.
pub(crate) proof fn lemma_listcmds_codes()
    ensures
        name_code("LPUSH"@) == 8390787362491705,
        name_code("RPUSH"@) == 9050494339157305,
        name_code("LPUSHX"@) == 8390787938926706,
        name_code("RPUSHX"@) == 9050494915592306,
        name_code("LPOP"@) == 8390782329224004,
        name_code("RPOP"@) == 9050489305889604,
        name_code("LRANGE"@) == 8391638419233406,
        name_code("LLEN"@) == 8389060986606004,
        name_code("LINDEX"@) == 8387756295917206,
        name_code("BLPOP"@) == 7289551036808005,
        name_code("BRPOP"@) == 7292128017185605,
        name_code("LMPOP"@) == 8389492161313605,
        name_code("BLMPOP"@) == 7289553238817606,
        name_code("LTRIM"@) == 8392488571937805,
        name_code("LSET"@) == 8392077530043504,
        name_code("LREM"@) == 8391636289262604,
        name_code("LPOS"@) == 8390787362388804,
        name_code("LINSERT"@) == 8387781422752507,
        name_code("LMOVE"@) == 8389503905543905,
        name_code("BLMOVE"@) == 7289551489185506,
        name_code("RPOPLPUSH"@) == 9050489830280509,
        name_code("BRPOPLPUSH"@) == 7292128515362110,
        name_code("SORT"@) == 9160017682900704,
        name_code("SORT_RO"@) == 9160018220297507,
{
    reveal(name_code);
    reveal_strlit("LPUSH");
    reveal_strlit("RPUSH");
    reveal_strlit("LPUSHX");
    reveal_strlit("RPUSHX");
    reveal_strlit("LPOP");
    reveal_strlit("RPOP");
    reveal_strlit("LRANGE");
    reveal_strlit("LLEN");
    reveal_strlit("LINDEX");
    reveal_strlit("BLPOP");
    reveal_strlit("BRPOP");
    reveal_strlit("LMPOP");
    reveal_strlit("BLMPOP");
    reveal_strlit("LTRIM");
    reveal_strlit("LSET");
    reveal_strlit("LREM");
    reveal_strlit("LPOS");
    reveal_strlit("LINSERT");
    reveal_strlit("LMOVE");
    reveal_strlit("BLMOVE");
    reveal_strlit("RPOPLPUSH");
    reveal_strlit("BRPOPLPUSH");
    reveal_strlit("SORT");
    reveal_strlit("SORT_RO");
}

/// The numbers of the names of `sets`.
pub(crate) proof fn lemma_sets_codes()
    ensures
        name_code("SADD"@) == 9153977884780904,
        name_code("SREM"@) == 9161294428705804,
        name_code("SMEMBERS"@) == 9159147397587708,
        name_code("SISMEMBER"@) == 9157429462765009,
        name_code("SCARD"@) == 9154860366700905,
        name_code("SPOP"@) == 9160440468667204,
        name_code("SINTER"@) == 9157441239586006,
        name_code("SINTERSTORE"@) == 9157441239918311,
        name_code("SUNION"@) == 9162576719444106,
        name_code("SUNIONSTORE"@) == 9162576719521511,
        name_code("SDIFF"@) == 9155269730464905,
        name_code("SDIFFSTORE"@) == 9155270274721510,
        name_code("SINTERCARD"@) == 9157441239916910,
        name_code("SUNIONCARD"@) == 9162576719520110,
        name_code("SDIFFCARD"@) == 9155270169862509,
        name_code("SMISMEMBER"@) == 9159157463584210,
        name_code("SRANDMEMBER"@) == 9161296611053011,
        name_code("SMOVE"@) == 9159162044987105,
        name_code("SSCAN"@) == 9161703792672305,
{
    reveal(name_code);
    reveal_strlit("SADD");
    reveal_strlit("SREM");
    reveal_strlit("SMEMBERS");
    reveal_strlit("SISMEMBER");
    reveal_strlit("SCARD");
    reveal_strlit("SPOP");
    reveal_strlit("SINTER");
    reveal_strlit("SINTERSTORE");
    reveal_strlit("SUNION");
    reveal_strlit("SUNIONSTORE");
    reveal_strlit("SDIFF");
    reveal_strlit("SDIFFSTORE");
    reveal_strlit("SINTERCARD");
    reveal_strlit("SUNIONCARD");
    reveal_strlit("SDIFFCARD");
    reveal_strlit("SMISMEMBER");
    reveal_strlit("SRANDMEMBER");
    reveal_strlit("SMOVE");
    reveal_strlit("SSCAN");
}

/// The numbers of the names of `zsets`.
pub(crate) proof fn lemma_zsets_codes()
    ensures
        name_code("ZADD"@) == 9923636024224104,
        name_code("ZREM"@) == 9930952568149004,
        name_code("ZSCORE"@) == 9931385872852706,
        name_code("ZCARD"@) == 9924518506144105,
        name_code("ZRANK"@) == 9930954246099305,
        name_code("ZREVRANK"@) == 9930968093856108,
        name_code("ZCOUNT"@) == 9924524089710906,
        name_code("ZINCRBY"@) == 9927070752827407,
        name_code("ZRANGE"@) == 9930954698119806,
        name_code("ZREVRANGE"@) == 9930968093678209,
        name_code("ZRANGEBYSCORE"@) == 9930954698401513,
        name_code("ZREVRANGEBYSCORE"@) == 9930968093959916,
        name_code("ZRANGEBYLEX"@) == 9930954698068411,
        name_code("ZREVRANGEBYLEX"@) == 9930968093626814,
        name_code("ZRANGESTORE"@) == 9930954698401511,
        name_code("ZPOPMIN"@) == 9930099086369307,
        name_code("ZPOPMAX"@) == 9930099033735707,
        name_code("BZPOPMIN"@) == 7295564495495708,
        name_code("BZPOPMAX"@) == 7295564495290908,
        name_code("ZMPOP"@) == 9928808440200005,
        name_code("BZMPOP"@) == 7295566193032006,
        name_code("ZUNIONSTORE"@) == 9932234858964711,
        name_code("ZINTERSTORE"@) == 9927099379361511,
        name_code("ZDIFFSTORE"@) == 9924928414164710,
        name_code("ZDIFF"@) == 9924927869908105,
        name_code("ZUNION"@) == 9932234858887306,
        name_code("ZINTER"@) == 9927099379029206,
        name_code("ZINTERCARD"@) == 9927099379360110,
        name_code("ZMSCORE"@) == 9928788845012707,
        name_code("ZRANDMEMBER"@) == 9930954750496211,
        name_code("ZREMRANGEBYRANK"@) == 9930952994361715,
        name_code("ZREMRANGEBYSCORE"@) == 9930952994465516,
        name_code("ZREMRANGEBYLEX"@) == 9930952994132414,
        name_code("ZLEXCOUNT"@) == 9928394560674109,
        name_code("ZSCAN"@) == 9931361932115505,
{
    reveal(name_code);
    reveal_strlit("ZADD");
    reveal_strlit("ZREM");
    reveal_strlit("ZSCORE");
    reveal_strlit("ZCARD");
    reveal_strlit("ZRANK");
    reveal_strlit("ZREVRANK");
    reveal_strlit("ZCOUNT");
    reveal_strlit("ZINCRBY");
    reveal_strlit("ZRANGE");
    reveal_strlit("ZREVRANGE");
    reveal_strlit("ZRANGEBYSCORE");
    reveal_strlit("ZREVRANGEBYSCORE");
    reveal_strlit("ZRANGEBYLEX");
    reveal_strlit("ZREVRANGEBYLEX");
    reveal_strlit("ZRANGESTORE");
    reveal_strlit("ZPOPMIN");
    reveal_strlit("ZPOPMAX");
    reveal_strlit("BZPOPMIN");
    reveal_strlit("BZPOPMAX");
    reveal_strlit("ZMPOP");
    reveal_strlit("BZMPOP");
    reveal_strlit("ZUNIONSTORE");
    reveal_strlit("ZINTERSTORE");
    reveal_strlit("ZDIFFSTORE");
    reveal_strlit("ZDIFF");
    reveal_strlit("ZUNION");
    reveal_strlit("ZINTER");
    reveal_strlit("ZINTERCARD");
    reveal_strlit("ZMSCORE");
    reveal_strlit("ZRANDMEMBER");
    reveal_strlit("ZREMRANGEBYRANK");
    reveal_strlit("ZREMRANGEBYSCORE");
    reveal_strlit("ZREMRANGEBYLEX");
    reveal_strlit("ZLEXCOUNT");
    reveal_strlit("ZSCAN");
}

/// The numbers of the names of `keyspace`.
pub(crate) proof fn lemma_keyspace_codes()
    ensures
        name_code("TYPE"@) == 9274238647100104,
        name_code("DIGEST"@) == 7508148645562106,
        name_code("GETDEL"@) == 7836282416467606,
        name_code("STRLEN"@) == 9162152255623606,
        name_code("DUMP"@) == 7513320510600504,
        name_code("KEYS"@) == 8276111735840504,
        name_code("STICKY"@) == 9162137228371506,
        name_code("DBSIZE"@) == 7505148781216906,
        name_code("RANDOMKEY"@) == 9044027226657109,
        name_code("MULTI"@) == 8502887686663605,
        name_code("EXEC"@) == 7624538352981604,
        name_code("DISCARD"@) == 7508145276985707,
        name_code("UNWATCH"@) == 9379459073723607,
        name_code("TOUCH"@) == 9269940324027705,
        name_code("STICK"@) == 9162136644896905,
        name_code("UNSTICK"@) == 9379490950432907,
        name_code("WATCH"@) == 9593780858146005,
        name_code("SETNX"@) == 9155712649173205,
        name_code("GETSET"@) == 7836307634721906,
        name_code("APPEND"@) == 7181301529350906,
        name_code("SELECT"@) == 9155698099898106,
        name_code("EXPIREAT"@) == 7624548871405308,
        name_code("PEXPIREAT"@) == 8825863053344509,
        name_code("EXPIRETIME"@) == 7624548871712910,
        name_code("PEXPIRETIME"@) == 8825863053652111,
        name_code("RENAME"@) == 9045740128185706,
        name_code("RENAMENX"@) == 9045740128211708,
        name_code("FLUSHDB"@) == 7729362844167207,
        name_code("FLUSHALL"@) == 7729362824710508,
        name_code("SETEX"@) == 9155697549448405,
        name_code("PSETEX"@) == 8831882757870806,
        name_code("MSETNX"@) == 8502029269768406,
        name_code("DELEX"@) == 7506430107783605,
        name_code("SCAN"@) == 9154853655379504,
        name_code("RESTORE"@) == 9045772090222307,
{
    reveal(name_code);
    reveal_strlit("TYPE");
    reveal_strlit("DIGEST");
    reveal_strlit("GETDEL");
    reveal_strlit("STRLEN");
    reveal_strlit("DUMP");
    reveal_strlit("KEYS");
    reveal_strlit("STICKY");
    reveal_strlit("DBSIZE");
    reveal_strlit("RANDOMKEY");
    reveal_strlit("MULTI");
    reveal_strlit("EXEC");
    reveal_strlit("DISCARD");
    reveal_strlit("UNWATCH");
    reveal_strlit("TOUCH");
    reveal_strlit("STICK");
    reveal_strlit("UNSTICK");
    reveal_strlit("WATCH");
    reveal_strlit("SETNX");
    reveal_strlit("GETSET");
    reveal_strlit("APPEND");
    reveal_strlit("SELECT");
    reveal_strlit("EXPIREAT");
    reveal_strlit("PEXPIREAT");
    reveal_strlit("EXPIRETIME");
    reveal_strlit("PEXPIRETIME");
    reveal_strlit("RENAME");
    reveal_strlit("RENAMENX");
    reveal_strlit("FLUSHDB");
    reveal_strlit("FLUSHALL");
    reveal_strlit("SETEX");
    reveal_strlit("PSETEX");
    reveal_strlit("MSETNX");
    reveal_strlit("DELEX");
    reveal_strlit("SCAN");
    reveal_strlit("RESTORE");
}

/// The numbers of the names of `admin`.
pub(crate) proof fn lemma_admin_codes()
    ensures
        name_code("SAVE"@) == 9153979562963304,
        name_code("BGSAVE"@) == 7287380517433706,
        name_code("BGREWRITEAOF"@) == 7287387313337712,
        name_code("LASTSAVE"@) == 8384347015328108,
        name_code("ROLE"@) == 9050041354145504,
        name_code("QUIT"@) == 8942692337493304,
        name_code("COMMAND"@) == 7400787845484907,
        name_code("STATS"@) == 9162165166598505,
        name_code("VERSION"@) == 9485575043872907,
        name_code("SLOWLOG"@) == 9158734743534007,
        name_code("DEBUG"@) == 7506456951737805,
        name_code("MEMORY"@) == 8496007933601506,
        name_code("DEFRAG"@) == 7506452383368206,
        name_code("ACTIVE-DEFRAG"@) == 7175724788974613,
        name_code("INFO"@) == 8060068169479804,
        name_code("REPLICAOF"@) == 9045758570067309,
        name_code("SLAVEOF"@) == 9158733065811707,
        name_code("PSYNC"@) == 8831872115055305,
        name_code("REPLCONF"@) == 9045758648686308,
        name_code("EVAL"@) == 7623694458914204,
        name_code("EVAL_RO"@) == 7623694996745507,
        name_code("EVALSHA"@) == 7623694930952307,
        name_code("EVALSHA_RO"@) == 7623694931209510,
        name_code("SCRIPT"@) == 9154845817658506,
        name_code("TIER"@) == 9267388509524104,
        name_code("DFLYCLUSTER"@) == 7506893657019611,
        name_code("DFLY"@) == 7506893159123804,
        name_code("DFLYMIGRATE"@) == 7506893637740911,
        name_code("CONFIG"@) == 7400776055431006,
        name_code("SHUTDOWN"@) == 9157011723655908,
{
    reveal(name_code);
    reveal_strlit("SAVE");
    reveal_strlit("BGSAVE");
    reveal_strlit("BGREWRITEAOF");
    reveal_strlit("LASTSAVE");
    reveal_strlit("ROLE");
    reveal_strlit("QUIT");
    reveal_strlit("COMMAND");
    reveal_strlit("STATS");
    reveal_strlit("VERSION");
    reveal_strlit("SLOWLOG");
    reveal_strlit("DEBUG");
    reveal_strlit("MEMORY");
    reveal_strlit("DEFRAG");
    reveal_strlit("ACTIVE-DEFRAG");
    reveal_strlit("INFO");
    reveal_strlit("REPLICAOF");
    reveal_strlit("SLAVEOF");
    reveal_strlit("PSYNC");
    reveal_strlit("REPLCONF");
    reveal_strlit("EVAL");
    reveal_strlit("EVAL_RO");
    reveal_strlit("EVALSHA");
    reveal_strlit("EVALSHA_RO");
    reveal_strlit("SCRIPT");
    reveal_strlit("TIER");
    reveal_strlit("DFLYCLUSTER");
    reveal_strlit("DFLY");
    reveal_strlit("DFLYMIGRATE");
    reveal_strlit("CONFIG");
    reveal_strlit("SHUTDOWN");
}

/// The numbers of the names of `channels`.
pub(crate) proof fn lemma_channels_codes()
    ensures
        name_code("SUBSCRIBE"@) == 9162593522541709,
        name_code("PSUBSCRIBE"@) == 8831852421178510,
        name_code("SSUBSCRIBE"@) == 9161705909511310,
        name_code("UNSUBSCRIBE"@) == 9379492732986511,
        name_code("PUNSUBSCRIBE"@) == 8832739929351312,
        name_code("SUNSUBSCRIBE"@) == 9162593417684112,
        name_code("PUBLISH"@) == 8832728297146507,
        name_code("SPUBLISH"@) == 9160417459079308,
        name_code("PUBSUB"@) == 8832739929838706,
{
    reveal(name_code);
    reveal_strlit("SUBSCRIBE");
    reveal_strlit("PSUBSCRIBE");
    reveal_strlit("SSUBSCRIBE");
    reveal_strlit("UNSUBSCRIBE");
    reveal_strlit("PUNSUBSCRIBE");
    reveal_strlit("SUNSUBSCRIBE");
    reveal_strlit("PUBLISH");
    reveal_strlit("SPUBLISH");
    reveal_strlit("PUBSUB");
}

/// The numbers of the names of `bits`.
pub(crate) proof fn lemma_bits_codes()
    ensures
        name_code("SETBIT"@) == 9155693066886606,
        name_code("GETBIT"@) == 7836279113555406,
        name_code("BITCOUNT"@) == 7288242970990908,
        name_code("BITPOS"@) == 7288264768289606,
        name_code("BITOP"@) == 7288262546619605,
        name_code("PFADD"@) == 8826271880096105,
        name_code("PFCOUNT"@) == 8826290846472507,
        name_code("PFMERGE"@) == 8826274023201807,
{
    reveal(name_code);
    reveal_strlit("SETBIT");
    reveal_strlit("GETBIT");
    reveal_strlit("BITCOUNT");
    reveal_strlit("BITPOS");
    reveal_strlit("BITOP");
    reveal_strlit("PFADD");
    reveal_strlit("PFCOUNT");
    reveal_strlit("PFMERGE");
}

/// The numbers of the names of `streams`.
pub(crate) proof fn lemma_streams_codes()
    ensures
        name_code("XADD"@) == 9703733698668904,
        name_code("XLEN"@) == 9708474939937204,
        name_code("XRANGE"@) == 9711052372564606,
        name_code("XREVRANGE"@) == 9711065768123009,
        name_code("XREAD"@) == 9711030109830905,
        name_code("XREADGROUP"@) == 9711030575649510,
        name_code("XDEL"@) == 9705035610656404,
        name_code("XACK"@) == 9703745442694504,
        name_code("XTRIM"@) == 9711902525269005,
        name_code("XGROUP"@) == 9706329658708706,
        name_code("XPENDING"@) == 9710193405498508,
{
    reveal(name_code);
    reveal_strlit("XADD");
    reveal_strlit("XLEN");
    reveal_strlit("XRANGE");
    reveal_strlit("XREVRANGE");
    reveal_strlit("XREAD");
    reveal_strlit("XREADGROUP");
    reveal_strlit("XDEL");
    reveal_strlit("XACK");
    reveal_strlit("XTRIM");
    reveal_strlit("XGROUP");
    reveal_strlit("XPENDING");
}

/// The numbers of the names of `modules`.
pub(crate) proof fn lemma_modules_codes()
    ensures
        name_code("HELLO"@) == 7946246503124405,
        name_code("RESET"@) == 9045746386670705,
        name_code("TIME"@) == 9267366699348104,
        name_code("ECHO"@) == 7615539054393904,
        name_code("VADD"@) == 9483831373113704,
        name_code("VQUERY"@) == 9490705582138106,
        name_code("CRDT.SET"@) == 7402088112264308,
        name_code("CRDT.GET"@) == 7402088033619908,
        name_code("CRDT.DEL"@) == 7402088013958808,
        name_code("CRDT.SMEMBERS"@) == 7402088112595713,
        name_code("CRDT.MERGE"@) == 7402088072993810,
        name_code("CRDT.INCRBY"@) == 7402088046651411,
        name_code("CRDT.SADD"@) == 7402088112236909,
        name_code("CRDT.SREM"@) == 7402088112264209,
        name_code("CRDT.DUMP"@) == 7402088014165309,
        name_code("CRDT.GC"@) == 7402088033668607,
        name_code("VSIM"@) == 9491577413870704,
        name_code("VDEL"@) == 9485133285101204,
        name_code("VINFO"@) == 9487270702446205,
        name_code("FUNCTION"@) == 7733201504237708,
        name_code("FCALL"@) == 7725485184108905,
        name_code("FCALL_RO"@) == 7725485806857508,
        name_code("XDP.INFO"@) == 9704985790215808,
        name_code("XDP.RULE"@) == 9704985836245308,
        name_code("XDP.STATS"@) == 9704985829894509,
        name_code("XDP.PACKET"@) == 9704985704993110,
        name_code("XDP.SOCKET"@) == 9704985796743510,
        name_code("XDP.INJECT"@) == 9704985790138110,
{
    reveal(name_code);
    reveal_strlit("HELLO");
    reveal_strlit("RESET");
    reveal_strlit("TIME");
    reveal_strlit("ECHO");
    reveal_strlit("VADD");
    reveal_strlit("VQUERY");
    reveal_strlit("CRDT.SET");
    reveal_strlit("CRDT.GET");
    reveal_strlit("CRDT.DEL");
    reveal_strlit("CRDT.SMEMBERS");
    reveal_strlit("CRDT.MERGE");
    reveal_strlit("CRDT.INCRBY");
    reveal_strlit("CRDT.SADD");
    reveal_strlit("CRDT.SREM");
    reveal_strlit("CRDT.DUMP");
    reveal_strlit("CRDT.GC");
    reveal_strlit("VSIM");
    reveal_strlit("VDEL");
    reveal_strlit("VINFO");
    reveal_strlit("FUNCTION");
    reveal_strlit("FCALL");
    reveal_strlit("FCALL_RO");
    reveal_strlit("XDP.INFO");
    reveal_strlit("XDP.RULE");
    reveal_strlit("XDP.STATS");
    reveal_strlit("XDP.PACKET");
    reveal_strlit("XDP.SOCKET");
    reveal_strlit("XDP.INJECT");
}

/// The numbers of the names of `json`.
pub(crate) proof fn lemma_json_codes()
    ensures
        name_code("JSON.SET"@) == 8172165682107508,
        name_code("JSON.GET"@) == 8172165603463108,
        name_code("JSON.DEL"@) == 8172165583802008,
        name_code("JSON.FORGET"@) == 8172165596909511,
        name_code("JSON.TYPE"@) == 8172165688943309,
        name_code("JSON.STRLEN"@) == 8172165682106811,
        name_code("JSON.ARRLEN"@) == 8172165564142011,
        name_code("JSON.OBJKEYS"@) == 8172165656403712,
        name_code("JSON.OBJLEN"@) == 8172165655892411,
        name_code("JSON.CLEAR"@) == 8172165577146110,
        name_code("JSON.NUMINCRBY"@) == 8172165649262614,
        name_code("JSON.NUMMULTBY"@) == 8172165649262814,
        name_code("JSON.STRAPPEND"@) == 8172165682336514,
        name_code("JSON.ARRAPPEND"@) == 8172165564371714,
        name_code("JSON.ARRPOP"@) == 8172165564398411,
        name_code("JSON.TOGGLE"@) == 8172165688839111,
        name_code("JSON.MGET"@) == 8172165642784709,
{
    reveal(name_code);
    reveal_strlit("JSON.SET");
    reveal_strlit("JSON.GET");
    reveal_strlit("JSON.DEL");
    reveal_strlit("JSON.FORGET");
    reveal_strlit("JSON.TYPE");
    reveal_strlit("JSON.STRLEN");
    reveal_strlit("JSON.ARRLEN");
    reveal_strlit("JSON.OBJKEYS");
    reveal_strlit("JSON.OBJLEN");
    reveal_strlit("JSON.CLEAR");
    reveal_strlit("JSON.NUMINCRBY");
    reveal_strlit("JSON.NUMMULTBY");
    reveal_strlit("JSON.STRAPPEND");
    reveal_strlit("JSON.ARRAPPEND");
    reveal_strlit("JSON.ARRPOP");
    reveal_strlit("JSON.TOGGLE");
    reveal_strlit("JSON.MGET");
}

/// The numbers of the names of `geo`.
pub(crate) proof fn lemma_geo_codes()
    ensures
        name_code("GEOADD"@) == 7836277330848106,
        name_code("GEODIST"@) == 7836282462701707,
        name_code("GEOPOS"@) == 7836302595259206,
        name_code("GEOHASH"@) == 7836289173587307,
        name_code("GEORADIUS"@) == 7836305852551309,
        name_code("GEORADIUS_RO"@) == 7836305852476712,
        name_code("GEORADIUSBYMEMBER"@) == 7836305852141017,
        name_code("GEORADIUSBYMEMBER_RO"@) == 7836305852476720,
        name_code("GEOSEARCH"@) == 7836307510152209,
{
    reveal(name_code);
    reveal_strlit("GEOADD");
    reveal_strlit("GEODIST");
    reveal_strlit("GEOPOS");
    reveal_strlit("GEOHASH");
    reveal_strlit("GEORADIUS");
    reveal_strlit("GEORADIUS_RO");
    reveal_strlit("GEORADIUSBYMEMBER");
    reveal_strlit("GEORADIUSBYMEMBER_RO");
    reveal_strlit("GEOSEARCH");
}

/// The numbers of the names of `sketches`.
pub(crate) proof fn lemma_sketches_codes()
    ensures
        name_code("BF.RESERVE"@) == 7286979633723410,
        name_code("BF.ADD"@) == 7286951013689706,
        name_code("BF.EXISTS"@) == 7286957757755509,
        name_code("CF.ADD"@) == 7396902176467306,
        name_code("CF.ADDNX"@) == 7396902176723608,
        name_code("CF.EXISTS"@) == 7396908920533109,
        name_code("CF.DEL"@) == 7396907262086806,
        name_code("BF.MADD"@) == 7286971146348907,
        name_code("BF.MEXISTS"@) == 7286971277832310,
        name_code("CMS.QUERY"@) == 7399876888634109,
        name_code("TOPK.ADD"@) == 9269954171808108,
        name_code("TOPK.QUERY"@) == 9269954277024510,
        name_code("BF.INFO"@) == 7286964448622207,
        name_code("CF.INFO"@) == 7396915611399807,
        name_code("CMS.INFO"@) == 7399876842452608,
        name_code("TOPK.LIST"@) == 9269954244282509,
        name_code("TOPK.INFO"@) == 9269954224289409,
        name_code("CF.RESERVE"@) == 7396930796501010,
        name_code("CMS.INITBYDIM"@) == 7399876842528413,
        name_code("CMS.INITBYPROB"@) == 7399876842683414,
        name_code("CMS.INCRBY"@) == 7399876842350610,
        name_code("TOPK.RESERVE"@) == 9269954283681812,
{
    reveal(name_code);
    reveal_strlit("BF.RESERVE");
    reveal_strlit("BF.ADD");
    reveal_strlit("BF.EXISTS");
    reveal_strlit("CF.ADD");
    reveal_strlit("CF.ADDNX");
    reveal_strlit("CF.EXISTS");
    reveal_strlit("CF.DEL");
    reveal_strlit("BF.MADD");
    reveal_strlit("BF.MEXISTS");
    reveal_strlit("CMS.QUERY");
    reveal_strlit("TOPK.ADD");
    reveal_strlit("TOPK.QUERY");
    reveal_strlit("BF.INFO");
    reveal_strlit("CF.INFO");
    reveal_strlit("CMS.INFO");
    reveal_strlit("TOPK.LIST");
    reveal_strlit("TOPK.INFO");
    reveal_strlit("CF.RESERVE");
    reveal_strlit("CMS.INITBYDIM");
    reveal_strlit("CMS.INITBYPROB");
    reveal_strlit("CMS.INCRBY");
    reveal_strlit("TOPK.RESERVE");
}

/// The numbers of the names of `fulltext`.
pub(crate) proof fn lemma_fulltext_codes()
    ensures
        name_code("FT.CREATE"@) == 7732771981420909,
        name_code("FT.SEARCH"@) == 7732798798318609,
        name_code("FT.AGGREGATE"@) == 7732768639084912,
        name_code("FT.INFO"@) == 7732782053947007,
        name_code("FT.DROPINDEX"@) == 7732773724294812,
        name_code("FT.EXPLAIN"@) == 7732775408672110,
        name_code("FT.ADD"@) == 7732768619014506,
{
    reveal(name_code);
    reveal_strlit("FT.CREATE");
    reveal_strlit("FT.SEARCH");
    reveal_strlit("FT.AGGREGATE");
    reveal_strlit("FT.INFO");
    reveal_strlit("FT.DROPINDEX");
    reveal_strlit("FT.EXPLAIN");
    reveal_strlit("FT.ADD");
}

/// The family `strings` answers to its names and to no other.
proof fn lemma_strings(name: Seq<char>, a: Seq<Seq<u8>>, env: &ParseEnv)
    ensures
        strings_command_spec(name, a, env) is Some <==> in_strings(name),
{
}

/// The family `server` answers to its names and to no other.
proof fn lemma_server(name: Seq<char>, a: Seq<Seq<u8>>, env: &ParseEnv)
    ensures
        server_command_spec(name, a, env) is Some <==> in_server(name),
{
}

/// The family `hashes` answers to its names and to no other.
proof fn lemma_hashes(name: Seq<char>, a: Seq<Seq<u8>>, env: &ParseEnv)
    ensures
        hashes_command_spec(name, a, env) is Some <==> in_hashes(name),
{
}

/// The family `listcmds` answers to its names and to no other.
proof fn lemma_listcmds(name: Seq<char>, a: Seq<Seq<u8>>, env: &ParseEnv)
    ensures
        listcmds_command_spec(name, a, env) is Some <==> in_listcmds(name),
{
}

/// The family `sets` answers to its names and to no other.
proof fn lemma_sets(name: Seq<char>, a: Seq<Seq<u8>>, env: &ParseEnv)
    ensures
        sets_command_spec(name, a) is Some <==> in_sets(name),
{
}

/// The family `zsets` answers to its names and to no other.
proof fn lemma_zsets(name: Seq<char>, a: Seq<Seq<u8>>, env: &ParseEnv)
    ensures
        zsets_command_spec(name, a, env) is Some <==> in_zsets(name),
{
}

/// The family `keyspace` answers to its names and to no other.
proof fn lemma_keyspace(name: Seq<char>, a: Seq<Seq<u8>>, env: &ParseEnv)
    ensures
        keyspace_command_spec(name, a, env) is Some <==> in_keyspace(name),
{
}

/// The family `admin` answers to its names and to no other.
proof fn lemma_admin(name: Seq<char>, a: Seq<Seq<u8>>, env: &ParseEnv)
    ensures
        admin_command_spec(name, a) is Some <==> in_admin(name),
{
}

/// The family `channels` answers to its names and to no other.
proof fn lemma_channels(name: Seq<char>, a: Seq<Seq<u8>>, env: &ParseEnv)
    ensures
        channels_command_spec(name, a) is Some <==> in_channels(name),
{
}

/// The family `bits` answers to its names and to no other.
proof fn lemma_bits(name: Seq<char>, a: Seq<Seq<u8>>, env: &ParseEnv)
    ensures
        bits_command_spec(name, a) is Some <==> in_bits(name),
{
}

/// The family `streams` answers to its names and to no other.
proof fn lemma_streams(name: Seq<char>, a: Seq<Seq<u8>>, env: &ParseEnv)
    ensures
        streams_command_spec(name, a) is Some <==> in_streams(name),
{
}

/// The family `modules` answers to its names and to no other.
proof fn lemma_modules(name: Seq<char>, a: Seq<Seq<u8>>, env: &ParseEnv)
    ensures
        modules_command_spec(name, a, env) is Some <==> in_modules(name),
{
}

/// The family `json` answers to its names and to no other.
proof fn lemma_json(name: Seq<char>, a: Seq<Seq<u8>>, env: &ParseEnv)
    ensures
        json_command_spec(name, a, env) is Some <==> in_json(name),
{
}

/// The family `geo` answers to its names and to no other.
proof fn lemma_geo(name: Seq<char>, a: Seq<Seq<u8>>, env: &ParseEnv)
    ensures
        geo_command_spec(name, a, env) is Some <==> in_geo(name),
{
}

/// The family `sketches` answers to its names and to no other.
proof fn lemma_sketches(name: Seq<char>, a: Seq<Seq<u8>>, env: &ParseEnv)
    ensures
        sketches_command_spec(name, a, env) is Some <==> in_sketches(name),
{
}

/// The family `fulltext` answers to its names and to no other.
proof fn lemma_fulltext(name: Seq<char>, a: Seq<Seq<u8>>, env: &ParseEnv)
    ensures
        fulltext_command_spec(name, a, env) is Some <==> in_fulltext(name),
{
}

/// A name of `strings` makes what that family makes of it.
pub(crate) proof fn lemma_reach_strings(name: Seq<char>, a: Seq<Seq<u8>>, env: &ParseEnv)
    requires
        in_strings(name),
    ensures
        strings_command_spec(name, a, env) == Some(named_command_spec(name, a, env)),
{
    lemma_strings(name, a, env);
}

/// No name of `server` belongs to an earlier family.
proof fn lemma_server_apart(name: Seq<char>)
    requires
        in_server(name),
    ensures
        !in_strings(name),
{
    lemma_server_codes();
    lemma_strings_codes();
}

/// A name of `server` makes what that family makes of it.
pub(crate) proof fn lemma_reach_server(name: Seq<char>, a: Seq<Seq<u8>>, env: &ParseEnv)
    requires
        in_server(name),
    ensures
        server_command_spec(name, a, env) == Some(named_command_spec(name, a, env)),
{
    lemma_server(name, a, env);
    lemma_server_apart(name);
    lemma_strings(name, a, env);
}

/// No name of `hashes` belongs to an earlier family.
proof fn lemma_hashes_apart(name: Seq<char>)
    requires
        in_hashes(name),
    ensures
        !in_strings(name),
        !in_server(name),
{
    lemma_hashes_codes();
    lemma_strings_codes();
    lemma_server_codes();
}

/// A name of `hashes` makes what that family makes of it.
pub(crate) proof fn lemma_reach_hashes(name: Seq<char>, a: Seq<Seq<u8>>, env: &ParseEnv)
    requires
        in_hashes(name),
    ensures
        hashes_command_spec(name, a, env) == Some(named_command_spec(name, a, env)),
{
    lemma_hashes(name, a, env);
    lemma_hashes_apart(name);
    lemma_strings(name, a, env);
    lemma_server(name, a, env);
}

/// No name of `listcmds` belongs to an earlier family.
proof fn lemma_listcmds_apart(name: Seq<char>)
    requires
        in_listcmds(name),
    ensures
        !in_strings(name),
        !in_server(name),
        !in_hashes(name),
{
    lemma_listcmds_codes();
    lemma_strings_codes();
    lemma_server_codes();
    lemma_hashes_codes();
}

/// A name of `listcmds` makes what that family makes of it.
pub(crate) proof fn lemma_reach_listcmds(name: Seq<char>, a: Seq<Seq<u8>>, env: &ParseEnv)
    requires
        in_listcmds(name),
    ensures
        listcmds_command_spec(name, a, env) == Some(named_command_spec(name, a, env)),
{
    lemma_listcmds(name, a, env);
    lemma_listcmds_apart(name);
    lemma_strings(name, a, env);
    lemma_server(name, a, env);
    lemma_hashes(name, a, env);
}

/// No name of `sets` belongs to an earlier family.
proof fn lemma_sets_apart(name: Seq<char>)
    requires
        in_sets(name),
    ensures
        !in_strings(name),
        !in_server(name),
        !in_hashes(name),
        !in_listcmds(name),
{
    lemma_sets_codes();
    lemma_strings_codes();
    lemma_server_codes();
    lemma_hashes_codes();
    lemma_listcmds_codes();
}

/// A name of `sets` makes what that family makes of it.
pub(crate) proof fn lemma_reach_sets(name: Seq<char>, a: Seq<Seq<u8>>, env: &ParseEnv)
    requires
        in_sets(name),
    ensures
        sets_command_spec(name, a) == Some(named_command_spec(name, a, env)),
{
    lemma_sets(name, a, env);
    lemma_sets_apart(name);
    lemma_strings(name, a, env);
    lemma_server(name, a, env);
    lemma_hashes(name, a, env);
    lemma_listcmds(name, a, env);
}

/// No name of `zsets` belongs to an earlier family.
proof fn lemma_zsets_apart(name: Seq<char>)
    requires
        in_zsets(name),
    ensures
        !in_strings(name),
        !in_server(name),
        !in_hashes(name),
        !in_listcmds(name),
        !in_sets(name),
{
    lemma_zsets_codes();
    lemma_strings_codes();
    lemma_server_codes();
    lemma_hashes_codes();
    lemma_listcmds_codes();
    lemma_sets_codes();
}

/// A name of `zsets` makes what that family makes of it.
pub(crate) proof fn lemma_reach_zsets(name: Seq<char>, a: Seq<Seq<u8>>, env: &ParseEnv)
    requires
        in_zsets(name),
    ensures
        zsets_command_spec(name, a, env) == Some(named_command_spec(name, a, env)),
{
    lemma_zsets(name, a, env);
    lemma_zsets_apart(name);
    lemma_strings(name, a, env);
    lemma_server(name, a, env);
    lemma_hashes(name, a, env);
    lemma_listcmds(name, a, env);
    lemma_sets(name, a, env);
}

/// No name of `keyspace` belongs to an earlier family.
proof fn lemma_keyspace_apart(name: Seq<char>)
    requires
        in_keyspace(name),
    ensures
        !in_strings(name),
        !in_server(name),
        !in_hashes(name),
        !in_listcmds(name),
        !in_sets(name),
        !in_zsets(name),
{
    lemma_keyspace_codes();
    lemma_strings_codes();
    lemma_server_codes();
    lemma_hashes_codes();
    lemma_listcmds_codes();
    lemma_sets_codes();
    lemma_zsets_codes();
}

/// A name of `keyspace` makes what that family makes of it.
pub(crate) proof fn lemma_reach_keyspace(name: Seq<char>, a: Seq<Seq<u8>>, env: &ParseEnv)
    requires
        in_keyspace(name),
    ensures
        keyspace_command_spec(name, a, env) == Some(named_command_spec(name, a, env)),
{
    lemma_keyspace(name, a, env);
    lemma_keyspace_apart(name);
    lemma_strings(name, a, env);
    lemma_server(name, a, env);
    lemma_hashes(name, a, env);
    lemma_listcmds(name, a, env);
    lemma_sets(name, a, env);
    lemma_zsets(name, a, env);
}

/// No name of `admin` belongs to an earlier family.
proof fn lemma_admin_apart(name: Seq<char>)
    requires
        in_admin(name),
    ensures
        !in_strings(name),
        !in_server(name),
        !in_hashes(name),
        !in_listcmds(name),
        !in_sets(name),
        !in_zsets(name),
        !in_keyspace(name),
{
    lemma_admin_codes();
    lemma_strings_codes();
    lemma_server_codes();
    lemma_hashes_codes();
    lemma_listcmds_codes();
    lemma_sets_codes();
    lemma_zsets_codes();
    lemma_keyspace_codes();
}

/// A name of `admin` makes what that family makes of it.
pub(crate) proof fn lemma_reach_admin(name: Seq<char>, a: Seq<Seq<u8>>, env: &ParseEnv)
    requires
        in_admin(name),
    ensures
        admin_command_spec(name, a) == Some(named_command_spec(name, a, env)),
{
    lemma_admin(name, a, env);
    lemma_admin_apart(name);
    lemma_strings(name, a, env);
    lemma_server(name, a, env);
    lemma_hashes(name, a, env);
    lemma_listcmds(name, a, env);
    lemma_sets(name, a, env);
    lemma_zsets(name, a, env);
    lemma_keyspace(name, a, env);
}

/// No name of `channels` belongs to an earlier family.
proof fn lemma_channels_apart(name: Seq<char>)
    requires
        in_channels(name),
    ensures
        !in_strings(name),
        !in_server(name),
        !in_hashes(name),
        !in_listcmds(name),
        !in_sets(name),
        !in_zsets(name),
        !in_keyspace(name),
        !in_admin(name),
{
    lemma_channels_codes();
    lemma_strings_codes();
    lemma_server_codes();
    lemma_hashes_codes();
    lemma_listcmds_codes();
    lemma_sets_codes();
    lemma_zsets_codes();
    lemma_keyspace_codes();
    lemma_admin_codes();
}

/// A name of `channels` makes what that family makes of it.
pub(crate) proof fn lemma_reach_channels(name: Seq<char>, a: Seq<Seq<u8>>, env: &ParseEnv)
    requires
        in_channels(name),
    ensures
        channels_command_spec(name, a) == Some(named_command_spec(name, a, env)),
{
    lemma_channels(name, a, env);
    lemma_channels_apart(name);
    lemma_strings(name, a, env);
    lemma_server(name, a, env);
    lemma_hashes(name, a, env);
    lemma_listcmds(name, a, env);
    lemma_sets(name, a, env);
    lemma_zsets(name, a, env);
    lemma_keyspace(name, a, env);
    lemma_admin(name, a, env);
}

/// No name of `bits` belongs to an earlier family.
proof fn lemma_bits_apart(name: Seq<char>)
    requires
        in_bits(name),
    ensures
        !in_strings(name),
        !in_server(name),
        !in_hashes(name),
        !in_listcmds(name),
        !in_sets(name),
        !in_zsets(name),
        !in_keyspace(name),
        !in_admin(name),
        !in_channels(name),
{
    lemma_bits_codes();
    lemma_strings_codes();
    lemma_server_codes();
    lemma_hashes_codes();
    lemma_listcmds_codes();
    lemma_sets_codes();
    lemma_zsets_codes();
    lemma_keyspace_codes();
    lemma_admin_codes();
    lemma_channels_codes();
}

/// A name of `bits` makes what that family makes of it.
pub(crate) proof fn lemma_reach_bits(name: Seq<char>, a: Seq<Seq<u8>>, env: &ParseEnv)
    requires
        in_bits(name),
    ensures
        bits_command_spec(name, a) == Some(named_command_spec(name, a, env)),
{
    lemma_bits(name, a, env);
    lemma_bits_apart(name);
    lemma_strings(name, a, env);
    lemma_server(name, a, env);
    lemma_hashes(name, a, env);
    lemma_listcmds(name, a, env);
    lemma_sets(name, a, env);
    lemma_zsets(name, a, env);
    lemma_keyspace(name, a, env);
    lemma_admin(name, a, env);
    lemma_channels(name, a, env);
}

/// No name of `streams` belongs to an earlier family.
proof fn lemma_streams_apart(name: Seq<char>)
    requires
        in_streams(name),
    ensures
        !in_strings(name),
        !in_server(name),
        !in_hashes(name),
        !in_listcmds(name),
        !in_sets(name),
        !in_zsets(name),
        !in_keyspace(name),
        !in_admin(name),
        !in_channels(name),
        !in_bits(name),
{
    lemma_streams_codes();
    lemma_strings_codes();
    lemma_server_codes();
    lemma_hashes_codes();
    lemma_listcmds_codes();
    lemma_sets_codes();
    lemma_zsets_codes();
    lemma_keyspace_codes();
    lemma_admin_codes();
    lemma_channels_codes();
    lemma_bits_codes();
}

/// A name of `streams` makes what that family makes of it.
pub(crate) proof fn lemma_reach_streams(name: Seq<char>, a: Seq<Seq<u8>>, env: &ParseEnv)
    requires
        in_streams(name),
    ensures
        streams_command_spec(name, a) == Some(named_command_spec(name, a, env)),
{
    lemma_streams(name, a, env);
    lemma_streams_apart(name);
    lemma_strings(name, a, env);
    lemma_server(name, a, env);
    lemma_hashes(name, a, env);
    lemma_listcmds(name, a, env);
    lemma_sets(name, a, env);
    lemma_zsets(name, a, env);
    lemma_keyspace(name, a, env);
    lemma_admin(name, a, env);
    lemma_channels(name, a, env);
    lemma_bits(name, a, env);
}

/// No name of `modules` belongs to an earlier family.
proof fn lemma_modules_apart(name: Seq<char>)
    requires
        in_modules(name),
    ensures
        !in_strings(name),
        !in_server(name),
        !in_hashes(name),
        !in_listcmds(name),
        !in_sets(name),
        !in_zsets(name),
        !in_keyspace(name),
        !in_admin(name),
        !in_channels(name),
        !in_bits(name),
        !in_streams(name),
{
    lemma_modules_codes();
    lemma_strings_codes();
    lemma_server_codes();
    lemma_hashes_codes();
    lemma_listcmds_codes();
    lemma_sets_codes();
    lemma_zsets_codes();
    lemma_keyspace_codes();
    lemma_admin_codes();
    lemma_channels_codes();
    lemma_bits_codes();
    lemma_streams_codes();
}

/// A name of `modules` makes what that family makes of it.
pub(crate) proof fn lemma_reach_modules(name: Seq<char>, a: Seq<Seq<u8>>, env: &ParseEnv)
    requires
        in_modules(name),
    ensures
        modules_command_spec(name, a, env) == Some(named_command_spec(name, a, env)),
{
    lemma_modules(name, a, env);
    lemma_modules_apart(name);
    lemma_strings(name, a, env);
    lemma_server(name, a, env);
    lemma_hashes(name, a, env);
    lemma_listcmds(name, a, env);
    lemma_sets(name, a, env);
    lemma_zsets(name, a, env);
    lemma_keyspace(name, a, env);
    lemma_admin(name, a, env);
    lemma_channels(name, a, env);
    lemma_bits(name, a, env);
    lemma_streams(name, a, env);
}

/// No name of `json` belongs to an earlier family.
proof fn lemma_json_apart(name: Seq<char>)
    requires
        in_json(name),
    ensures
        !in_strings(name),
        !in_server(name),
        !in_hashes(name),
        !in_listcmds(name),
        !in_sets(name),
        !in_zsets(name),
        !in_keyspace(name),
        !in_admin(name),
        !in_channels(name),
        !in_bits(name),
        !in_streams(name),
        !in_modules(name),
{
    lemma_json_codes();
    lemma_strings_codes();
    lemma_server_codes();
    lemma_hashes_codes();
    lemma_listcmds_codes();
    lemma_sets_codes();
    lemma_zsets_codes();
    lemma_keyspace_codes();
    lemma_admin_codes();
    lemma_channels_codes();
    lemma_bits_codes();
    lemma_streams_codes();
    lemma_modules_codes();
}

/// A name of `json` makes what that family makes of it.
pub(crate) proof fn lemma_reach_json(name: Seq<char>, a: Seq<Seq<u8>>, env: &ParseEnv)
    requires
        in_json(name),
    ensures
        json_command_spec(name, a, env) == Some(named_command_spec(name, a, env)),
{
    lemma_json(name, a, env);
    lemma_json_apart(name);
    lemma_strings(name, a, env);
    lemma_server(name, a, env);
    lemma_hashes(name, a, env);
    lemma_listcmds(name, a, env);
    lemma_sets(name, a, env);
    lemma_zsets(name, a, env);
    lemma_keyspace(name, a, env);
    lemma_admin(name, a, env);
    lemma_channels(name, a, env);
    lemma_bits(name, a, env);
    lemma_streams(name, a, env);
    lemma_modules(name, a, env);
}

/// No name of `geo` belongs to an earlier family.
proof fn lemma_geo_apart(name: Seq<char>)
    requires
        in_geo(name),
    ensures
        !in_strings(name),
        !in_server(name),
        !in_hashes(name),
        !in_listcmds(name),
        !in_sets(name),
        !in_zsets(name),
        !in_keyspace(name),
        !in_admin(name),
        !in_channels(name),
        !in_bits(name),
        !in_streams(name),
        !in_modules(name),
        !in_json(name),
{
    lemma_geo_codes();
    lemma_strings_codes();
    lemma_server_codes();
    lemma_hashes_codes();
    lemma_listcmds_codes();
    lemma_sets_codes();
    lemma_zsets_codes();
    lemma_keyspace_codes();
    lemma_admin_codes();
    lemma_channels_codes();
    lemma_bits_codes();
    lemma_streams_codes();
    lemma_modules_codes();
    lemma_json_codes();
}

/// A name of `geo` makes what that family makes of it.
pub(crate) proof fn lemma_reach_geo(name: Seq<char>, a: Seq<Seq<u8>>, env: &ParseEnv)
    requires
        in_geo(name),
    ensures
        geo_command_spec(name, a, env) == Some(named_command_spec(name, a, env)),
{
    lemma_geo(name, a, env);
    lemma_geo_apart(name);
    lemma_strings(name, a, env);
    lemma_server(name, a, env);
    lemma_hashes(name, a, env);
    lemma_listcmds(name, a, env);
    lemma_sets(name, a, env);
    lemma_zsets(name, a, env);
    lemma_keyspace(name, a, env);
    lemma_admin(name, a, env);
    lemma_channels(name, a, env);
    lemma_bits(name, a, env);
    lemma_streams(name, a, env);
    lemma_modules(name, a, env);
    lemma_json(name, a, env);
}

/// No name of `sketches` belongs to an earlier family.
proof fn lemma_sketches_apart(name: Seq<char>)
    requires
        in_sketches(name),
    ensures
        !in_strings(name),
        !in_server(name),
        !in_hashes(name),
        !in_listcmds(name),
        !in_sets(name),
        !in_zsets(name),
        !in_keyspace(name),
        !in_admin(name),
        !in_channels(name),
        !in_bits(name),
        !in_streams(name),
        !in_modules(name),
        !in_json(name),
        !in_geo(name),
{
    lemma_sketches_codes();
    lemma_strings_codes();
    lemma_server_codes();
    lemma_hashes_codes();
    lemma_listcmds_codes();
    lemma_sets_codes();
    lemma_zsets_codes();
    lemma_keyspace_codes();
    lemma_admin_codes();
    lemma_channels_codes();
    lemma_bits_codes();
    lemma_streams_codes();
    lemma_modules_codes();
    lemma_json_codes();
    lemma_geo_codes();
}

/// A name of `sketches` makes what that family makes of it.
pub(crate) proof fn lemma_reach_sketches(name: Seq<char>, a: Seq<Seq<u8>>, env: &ParseEnv)
    requires
        in_sketches(name),
    ensures
        sketches_command_spec(name, a, env) == Some(named_command_spec(name, a, env)),
{
    lemma_sketches(name, a, env);
    lemma_sketches_apart(name);
    lemma_strings(name, a, env);
    lemma_server(name, a, env);
    lemma_hashes(name, a, env);
    lemma_listcmds(name, a, env);
    lemma_sets(name, a, env);
    lemma_zsets(name, a, env);
    lemma_keyspace(name, a, env);
    lemma_admin(name, a, env);
    lemma_channels(name, a, env);
    lemma_bits(name, a, env);
    lemma_streams(name, a, env);
    lemma_modules(name, a, env);
    lemma_json(name, a, env);
    lemma_geo(name, a, env);
}

/// No name of `fulltext` belongs to an earlier family.
proof fn lemma_fulltext_apart(name: Seq<char>)
    requires
        in_fulltext(name),
    ensures
        !in_strings(name),
        !in_server(name),
        !in_hashes(name),
        !in_listcmds(name),
        !in_sets(name),
        !in_zsets(name),
        !in_keyspace(name),
        !in_admin(name),
        !in_channels(name),
        !in_bits(name),
        !in_streams(name),
        !in_modules(name),
        !in_json(name),
        !in_geo(name),
        !in_sketches(name),
{
    lemma_fulltext_codes();
    lemma_strings_codes();
    lemma_server_codes();
    lemma_hashes_codes();
    lemma_listcmds_codes();
    lemma_sets_codes();
    lemma_zsets_codes();
    lemma_keyspace_codes();
    lemma_admin_codes();
    lemma_channels_codes();
    lemma_bits_codes();
    lemma_streams_codes();
    lemma_modules_codes();
    lemma_json_codes();
    lemma_geo_codes();
    lemma_sketches_codes();
}

/// A name of `fulltext` makes what that family makes of it.
pub(crate) proof fn lemma_reach_fulltext(name: Seq<char>, a: Seq<Seq<u8>>, env: &ParseEnv)
    requires
        in_fulltext(name),
    ensures
        fulltext_command_spec(name, a, env) == Some(named_command_spec(name, a, env)),
{
    lemma_fulltext(name, a, env);
    lemma_fulltext_apart(name);
    lemma_strings(name, a, env);
    lemma_server(name, a, env);
    lemma_hashes(name, a, env);
    lemma_listcmds(name, a, env);
    lemma_sets(name, a, env);
    lemma_zsets(name, a, env);
    lemma_keyspace(name, a, env);
    lemma_admin(name, a, env);
    lemma_channels(name, a, env);
    lemma_bits(name, a, env);
    lemma_streams(name, a, env);
    lemma_modules(name, a, env);
    lemma_json(name, a, env);
    lemma_geo(name, a, env);
    lemma_sketches(name, a, env);
}

} // verus!
