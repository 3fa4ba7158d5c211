use bytes::{Bytes, BytesMut};
use rudis::command::{Command, ObjectSubcommand, SetCondition};
use rudis::lists::PairList;
use rudis::numbers::parse_decimal_bytes;
use rudis::operands::{
    Double, LexBound, ListDirection, Single, StreamAddId, StreamId, ZRangeOpts,
};
use rudis::readings::{FloatReading, ParseEnv};
use rudis::resp::{
    bytes_to_uppercase_ascii, get_proto_max_bulk_len, parse_command, peek_arguments,
    set_proto_max_bulk_len,
};
use rudis::time::Duration;

const LIMIT: usize = 512 * 1024 * 1024;

fn double(x: f64) -> Double {
    Double { bits: x.to_bits() }
}

fn reading(text: &[u8]) -> Option<FloatReading> {
    let s = std::str::from_utf8(text).ok()?;
    let value: Option<f64> = s.parse().ok();
    let hexadecimal = s
        .strip_prefix("0x")
        .or_else(|| s.strip_prefix("0X"))
        .and_then(|digits| u64::from_str_radix(digits, 16).ok())
        .map(|n| double(n as f64));
    let single: Option<f32> = s.parse().ok();
    if value.is_none() && hexadecimal.is_none() {
        return None;
    }
    Some(FloatReading {
        text: text.to_vec(),
        double: value.map(double),
        single: single.map(|x| Single { bits: x.to_bits() }),
        strtod: value.map(double),
        hexadecimal,
    })
}

/// What a parser is told of the bytes that wait in `buf`.
fn env_for(buf: &BytesMut) -> ParseEnv {
    let mut floats = Vec::new();
    for argument in peek_arguments(buf, LIMIT) {
        let text: &[u8] = argument.as_ref();
        floats.extend(reading(text));
        if text.first() == Some(&b'(') {
            floats.extend(reading(&text[1..]));
        }
        if let Some(p) = text.iter().position(|b| *b == b'=') {
            floats.extend(reading(&text[p + 1..]));
        }
    }
    ParseEnv { max_bulk_len: LIMIT, now_ms: 1_700_000_000_000, floats }
}

fn parse(buf: &mut BytesMut) -> Result<Option<Command>, String> {
    let env = env_for(buf);
    parse_command(buf, &env)
}

#[test]
fn test_resp_get() {
    let mut buf = BytesMut::from("*2\r\n$3\r\nGET\r\n$5\r\nmykey\r\n");
    let cmd = parse(&mut buf).unwrap().unwrap();
    assert_eq!(cmd, Command::Get(Bytes::from_static(b"mykey")));
    assert!(buf.is_empty());
}

#[test]
fn test_resp_set_and_put() {
    let mut buf = BytesMut::from("*3\r\n$3\r\nSET\r\n$5\r\nmykey\r\n$7\r\nmyvalue\r\n");
    let cmd = parse(&mut buf).unwrap().unwrap();
    assert_eq!(
        cmd,
        Command::SetKey {
            key: Bytes::from_static(b"mykey"),
            value: Bytes::from_static(b"myvalue"),
            expire_in: None,
            condition: SetCondition::Always,
            get: false,
            keepttl: false,
            past_expired: false,
        }
    );
    assert!(buf.is_empty());

    let mut buf = BytesMut::from("*3\r\n$3\r\nPUT\r\n$1\r\nk\r\n$1\r\nv\r\n");
    let cmd = parse(&mut buf).unwrap().unwrap();
    assert_eq!(
        cmd,
        Command::SetKey {
            key: Bytes::from_static(b"k"),
            value: Bytes::from_static(b"v"),
            expire_in: None,
            condition: SetCondition::Always,
            get: false,
            keepttl: false,
            past_expired: false,
        }
    );
    assert!(buf.is_empty());

    // SET with EX
    let mut buf =
        BytesMut::from("*5\r\n$3\r\nSET\r\n$1\r\nk\r\n$1\r\nv\r\n$2\r\nEX\r\n$2\r\n10\r\n");
    let cmd = parse(&mut buf).unwrap().unwrap();
    assert_eq!(
        cmd,
        Command::SetKey {
            key: Bytes::from_static(b"k"),
            value: Bytes::from_static(b"v"),
            expire_in: Some(Duration::from_secs(10)),
            condition: SetCondition::Always,
            get: false,
            keepttl: false,
            past_expired: false,
        }
    );
}

#[test]
fn test_inline_commands() {
    let mut buf = BytesMut::from("GET foo\r\n");
    let cmd = parse(&mut buf).unwrap().unwrap();
    assert_eq!(cmd, Command::Get(Bytes::from_static(b"foo")));

    let mut buf = BytesMut::from("SET foo bar\r\n");
    let cmd = parse(&mut buf).unwrap().unwrap();
    assert_eq!(
        cmd,
        Command::SetKey {
            key: Bytes::from_static(b"foo"),
            value: Bytes::from_static(b"bar"),
            expire_in: None,
            condition: SetCondition::Always,
            get: false,
            keepttl: false,
            past_expired: false,
        }
    );

    let mut buf = BytesMut::from("EXPIRE foo 60\r\n");
    let cmd = parse(&mut buf).unwrap().unwrap();
    assert_eq!(
        cmd,
        Command::Expire(Bytes::from_static(b"foo"), Duration::from_secs(60))
    );

    let mut buf = BytesMut::from("TTL foo\r\n");
    let cmd = parse(&mut buf).unwrap().unwrap();
    assert_eq!(cmd, Command::Ttl(Bytes::from_static(b"foo"), false));
}

#[test]
fn test_resp_hash_commands() {
    let mut buf = BytesMut::from("HSET myhash f1 v1 f2 v2\r\n");
    let cmd = parse(&mut buf).unwrap().unwrap();
    assert_eq!(
        cmd,
        Command::Hset {
            key: Bytes::from_static(b"myhash"),
            fields: PairList::of(&[
                (Bytes::from_static(b"f1"), Bytes::from_static(b"v1")),
                (Bytes::from_static(b"f2"), Bytes::from_static(b"v2")),
            ]),
        }
    );

    let mut buf = BytesMut::from("HGET myhash f1\r\n");
    let cmd = parse(&mut buf).unwrap().unwrap();
    assert_eq!(
        cmd,
        Command::Hget {
            key: Bytes::from_static(b"myhash"),
            field: Bytes::from_static(b"f1"),
        }
    );

    let mut buf = BytesMut::from("HMGET myhash f1 f2\r\n");
    let cmd = parse(&mut buf).unwrap().unwrap();
    assert_eq!(
        cmd,
        Command::Hmget {
            key: Bytes::from_static(b"myhash"),
            fields: vec![Bytes::from_static(b"f1"), Bytes::from_static(b"f2")],
        }
    );

    let mut buf = BytesMut::from("HDEL myhash f1\r\n");
    let cmd = parse(&mut buf).unwrap().unwrap();
    assert_eq!(
        cmd,
        Command::Hdel {
            key: Bytes::from_static(b"myhash"),
            fields: vec![Bytes::from_static(b"f1")],
        }
    );

    let mut buf = BytesMut::from("HEXISTS myhash f1\r\n");
    let cmd = parse(&mut buf).unwrap().unwrap();
    assert_eq!(
        cmd,
        Command::Hexists {
            key: Bytes::from_static(b"myhash"),
            field: Bytes::from_static(b"f1"),
        }
    );

    let mut buf = BytesMut::from("HLEN myhash\r\n");
    let cmd = parse(&mut buf).unwrap().unwrap();
    assert_eq!(cmd, Command::Hlen(Bytes::from_static(b"myhash")));

    let mut buf = BytesMut::from("HGETALL myhash\r\n");
    let cmd = parse(&mut buf).unwrap().unwrap();
    assert_eq!(cmd, Command::Hgetall(Bytes::from_static(b"myhash")));
}

#[test]
fn test_resp_keyspace_and_transactions() {
    // KEYS
    let mut buf = BytesMut::from("KEYS user:*\r\n");
    assert_eq!(
        parse(&mut buf).unwrap().unwrap(),
        Command::Keys(Bytes::from_static(b"user:*"))
    );

    // SCAN
    let mut buf = BytesMut::from("SCAN 123 MATCH pat:* COUNT 50\r\n");
    assert_eq!(
        parse(&mut buf).unwrap().unwrap(),
        Command::Scan {
            cursor: 123,
            pattern: Some(Bytes::from_static(b"pat:*")),
            count: Some(50),
        }
    );

    // RANDOMKEY
    let mut buf = BytesMut::from("RANDOMKEY\r\n");
    assert_eq!(
        parse(&mut buf).unwrap().unwrap(),
        Command::Randomkey
    );

    // EXPIRETIME & PEXPIRETIME
    let mut buf = BytesMut::from("EXPIRETIME k1\r\n");
    assert_eq!(
        parse(&mut buf).unwrap().unwrap(),
        Command::Expiretime(Bytes::from_static(b"k1"), false)
    );
    let mut buf = BytesMut::from("PEXPIRETIME k1\r\n");
    assert_eq!(
        parse(&mut buf).unwrap().unwrap(),
        Command::Expiretime(Bytes::from_static(b"k1"), true)
    );

    // MULTI, EXEC, DISCARD
    let mut buf = BytesMut::from("MULTI\r\n");
    assert_eq!(parse(&mut buf).unwrap().unwrap(), Command::Multi);
    let mut buf = BytesMut::from("EXEC\r\n");
    assert_eq!(parse(&mut buf).unwrap().unwrap(), Command::Exec);
    let mut buf = BytesMut::from("DISCARD\r\n");
    assert_eq!(parse(&mut buf).unwrap().unwrap(), Command::Discard);
}

#[test]
fn test_resp_bitmaps_and_hll() {
    // SETBIT
    let mut buf = BytesMut::from("SETBIT mykey 10 1\r\n");
    assert_eq!(
        parse(&mut buf).unwrap().unwrap(),
        Command::Setbit {
            key: Bytes::from_static(b"mykey"),
            offset: 10,
            value: 1,
        }
    );

    // GETBIT
    let mut buf = BytesMut::from("GETBIT mykey 10\r\n");
    assert_eq!(
        parse(&mut buf).unwrap().unwrap(),
        Command::Getbit {
            key: Bytes::from_static(b"mykey"),
            offset: 10,
        }
    );

    // BITCOUNT
    let mut buf = BytesMut::from("BITCOUNT mykey 0 5\r\n");
    assert_eq!(
        parse(&mut buf).unwrap().unwrap(),
        Command::Bitcount {
            key: Bytes::from_static(b"mykey"),
            start: Some(0),
            end: Some(5),
        }
    );

    // BITPOS
    let mut buf = BytesMut::from("BITPOS mykey 1 2 4\r\n");
    assert_eq!(
        parse(&mut buf).unwrap().unwrap(),
        Command::Bitpos {
            key: Bytes::from_static(b"mykey"),
            bit: 1,
            start: Some(2),
            end: Some(4),
        }
    );

    // BITOP
    let mut buf = BytesMut::from("BITOP AND dest k1 k2\r\n");
    assert_eq!(
        parse(&mut buf).unwrap().unwrap(),
        Command::Bitop {
            op: "AND".to_string(),
            destkey: Bytes::from_static(b"dest"),
            srckeys: vec![Bytes::from_static(b"k1"), Bytes::from_static(b"k2")],
        }
    );

    // PFADD
    let mut buf = BytesMut::from("PFADD hll elem1 elem2\r\n");
    assert_eq!(
        parse(&mut buf).unwrap().unwrap(),
        Command::Pfadd {
            key: Bytes::from_static(b"hll"),
            elements: vec![Bytes::from_static(b"elem1"), Bytes::from_static(b"elem2")],
        }
    );

    // PFCOUNT
    let mut buf = BytesMut::from("PFCOUNT hll1 hll2\r\n");
    assert_eq!(
        parse(&mut buf).unwrap().unwrap(),
        Command::Pfcount {
            keys: vec![Bytes::from_static(b"hll1"), Bytes::from_static(b"hll2")],
        }
    );

    // PFMERGE
    let mut buf = BytesMut::from("PFMERGE dest hll1 hll2\r\n");
    assert_eq!(
        parse(&mut buf).unwrap().unwrap(),
        Command::Pfmerge {
            destkey: Bytes::from_static(b"dest"),
            srckeys: vec![Bytes::from_static(b"hll1"), Bytes::from_static(b"hll2")],
        }
    );
}

#[test]
fn test_resp_dump_and_restore() {
    // DUMP
    let mut buf = BytesMut::from("DUMP mykey\r\n");
    assert_eq!(
        parse(&mut buf).unwrap().unwrap(),
        Command::Dump(Bytes::from_static(b"mykey"))
    );

    // RESTORE
    let mut buf =
        BytesMut::from("*4\r\n$7\r\nRESTORE\r\n$5\r\nmykey\r\n$1\r\n0\r\n$4\r\ndata\r\n");
    assert_eq!(
        parse(&mut buf).unwrap().unwrap(),
        Command::Restore {
            key: Bytes::from_static(b"mykey"),
            ttl_ms: 0,
            serialized: Bytes::from_static(b"data"),
            replace: false,
            absttl: false,
        }
    );

    // RESTORE with REPLACE and ABSTTL
    let mut buf = BytesMut::from(
        "*6\r\n$7\r\nRESTORE\r\n$5\r\nmykey\r\n$4\r\n1000\r\n$4\r\ndata\r\n$7\r\nREPLACE\r\n$6\r\nABSTTL\r\n",
    );
    assert_eq!(
        parse(&mut buf).unwrap().unwrap(),
        Command::Restore {
            key: Bytes::from_static(b"mykey"),
            ttl_ms: 1000,
            serialized: Bytes::from_static(b"data"),
            replace: true,
            absttl: true,
        }
    );
}

#[test]
fn test_resp_streams() {
    // XADD with auto ID
    let mut buf = BytesMut::from("XADD s1 * field1 val1\r\n");
    assert_eq!(
        parse(&mut buf).unwrap().unwrap(),
        Command::Xadd {
            key: Bytes::from_static(b"s1"),
            nomkstream: false,
            maxlen: None,
            minid: None,
            id: StreamAddId::Auto,
            fields: vec![(Bytes::from_static(b"field1"), Bytes::from_static(b"val1"))],
        }
    );

    // XADD with NOMKSTREAM and MAXLEN
    let mut buf = BytesMut::from("XADD s1 NOMKSTREAM MAXLEN ~ 1000 100-0 f1 v1\r\n");
    assert_eq!(
        parse(&mut buf).unwrap().unwrap(),
        Command::Xadd {
            key: Bytes::from_static(b"s1"),
            nomkstream: true,
            maxlen: Some(1000),
            minid: None,
            id: StreamAddId::Explicit(StreamId { ms: 100, seq: 0 }),
            fields: vec![(Bytes::from_static(b"f1"), Bytes::from_static(b"v1"))],
        }
    );

    // XLEN
    let mut buf = BytesMut::from("XLEN s1\r\n");
    assert_eq!(
        parse(&mut buf).unwrap().unwrap(),
        Command::Xlen(Bytes::from_static(b"s1"))
    );

    // XRANGE
    let mut buf = BytesMut::from("XRANGE s1 - + COUNT 10\r\n");
    assert_eq!(
        parse(&mut buf).unwrap().unwrap(),
        Command::Xrange {
            key: Bytes::from_static(b"s1"),
            start: "-".to_string(),
            end: "+".to_string(),
            count: Some(10),
        }
    );

    // XREVRANGE
    let mut buf = BytesMut::from("XREVRANGE s1 + - COUNT 5\r\n");
    assert_eq!(
        parse(&mut buf).unwrap().unwrap(),
        Command::Xrevrange {
            key: Bytes::from_static(b"s1"),
            end: "+".to_string(),
            start: "-".to_string(),
            count: Some(5),
        }
    );

    // XREAD
    let mut buf = BytesMut::from("XREAD COUNT 2 STREAMS s1 s2 0-0 $\r\n");
    assert_eq!(
        parse(&mut buf).unwrap().unwrap(),
        Command::Xread {
            count: Some(2),
            block_ms: None,
            keys: vec![Bytes::from_static(b"s1"), Bytes::from_static(b"s2")],
            ids: vec!["0-0".to_string(), "$".to_string()],
        }
    );

    // XDEL
    let mut buf = BytesMut::from("XDEL s1 100-1 100-2\r\n");
    assert_eq!(
        parse(&mut buf).unwrap().unwrap(),
        Command::Xdel {
            key: Bytes::from_static(b"s1"),
            ids: vec![
                StreamId { ms: 100, seq: 1 },
                StreamId { ms: 100, seq: 2 }
            ],
        }
    );

    // XTRIM
    let mut buf = BytesMut::from("XTRIM s1 MAXLEN = 50\r\n");
    assert_eq!(
        parse(&mut buf).unwrap().unwrap(),
        Command::Xtrim {
            key: Bytes::from_static(b"s1"),
            maxlen: Some(50),
            minid: None,
        }
    );
}

#[test]
fn test_valkey_extended_parsers() {
    // HELLO
    let mut buf = BytesMut::from("HELLO 3 AUTH alice secret SETNAME client1\r\n");
    assert_eq!(
        parse(&mut buf).unwrap().unwrap(),
        Command::Hello {
            proto: Some(3),
            auth: Some(("alice".to_string(), "secret".to_string())),
            setname: Some("client1".to_string()),
        }
    );

    // RESET, TIME, ECHO
    let mut buf = BytesMut::from("RESET\r\n");
    assert_eq!(parse(&mut buf).unwrap().unwrap(), Command::Reset);
    let mut buf = BytesMut::from("TIME\r\n");
    assert_eq!(parse(&mut buf).unwrap().unwrap(), Command::Time);
    let mut buf = BytesMut::from("ECHO hi\r\n");
    assert_eq!(
        parse(&mut buf).unwrap().unwrap(),
        Command::Echo(Bytes::from_static(b"hi"))
    );

    // HASHES: HINCRBY, HINCRBYFLOAT, HRANDFIELD, HSCAN
    let mut buf = BytesMut::from("HINCRBY h f 5\r\n");
    assert_eq!(
        parse(&mut buf).unwrap().unwrap(),
        Command::Hincrby {
            key: Bytes::from_static(b"h"),
            field: Bytes::from_static(b"f"),
            increment: 5
        }
    );
    let mut buf = BytesMut::from("HINCRBYFLOAT h f 2.5\r\n");
    assert_eq!(
        parse(&mut buf).unwrap().unwrap(),
        Command::Hincrbyfloat {
            key: Bytes::from_static(b"h"),
            field: Bytes::from_static(b"f"),
            increment: double(2.5)
        }
    );
    let mut buf = BytesMut::from("HRANDFIELD h 3 WITHVALUES\r\n");
    assert_eq!(
        parse(&mut buf).unwrap().unwrap(),
        Command::Hrandfield {
            key: Bytes::from_static(b"h"),
            count: Some(3),
            with_values: true
        }
    );
    let mut buf = BytesMut::from("HSCAN h 0 MATCH pat* COUNT 20\r\n");
    assert_eq!(
        parse(&mut buf).unwrap().unwrap(),
        Command::Hscan {
            key: Bytes::from_static(b"h"),
            cursor: 0,
            pattern: Some(Bytes::from_static(b"pat*")),
            count: Some(20)
        }
    );

    // SETS: SMISMEMBER, SRANDMEMBER, SMOVE, SSCAN
    let mut buf = BytesMut::from("SMISMEMBER s m1 m2\r\n");
    assert_eq!(
        parse(&mut buf).unwrap().unwrap(),
        Command::Smismember {
            key: Bytes::from_static(b"s"),
            members: vec![Bytes::from_static(b"m1"), Bytes::from_static(b"m2")]
        }
    );
    let mut buf = BytesMut::from("SRANDMEMBER s 2\r\n");
    assert_eq!(
        parse(&mut buf).unwrap().unwrap(),
        Command::Srandmember {
            key: Bytes::from_static(b"s"),
            count: Some(2)
        }
    );
    let mut buf = BytesMut::from("SMOVE s1 s2 m\r\n");
    assert_eq!(
        parse(&mut buf).unwrap().unwrap(),
        Command::Smove {
            source: Bytes::from_static(b"s1"),
            destination: Bytes::from_static(b"s2"),
            member: Bytes::from_static(b"m")
        }
    );
    let mut buf = BytesMut::from("SSCAN s 0\r\n");
    assert_eq!(
        parse(&mut buf).unwrap().unwrap(),
        Command::Sscan {
            key: Bytes::from_static(b"s"),
            cursor: 0,
            pattern: None,
            count: None
        }
    );

    // ZSETS: ZMSCORE, ZRANDMEMBER, ZREMRANGEBYRANK, ZREMRANGEBYSCORE, ZREMRANGEBYLEX, ZLEXCOUNT, ZSCAN
    let mut buf = BytesMut::from("ZMSCORE z m1 m2\r\n");
    assert_eq!(
        parse(&mut buf).unwrap().unwrap(),
        Command::Zmscore {
            key: Bytes::from_static(b"z"),
            members: vec![Bytes::from_static(b"m1"), Bytes::from_static(b"m2")]
        }
    );
    let mut buf = BytesMut::from("ZRANDMEMBER z 2 WITHSCORES\r\n");
    assert_eq!(
        parse(&mut buf).unwrap().unwrap(),
        Command::Zrandmember {
            key: Bytes::from_static(b"z"),
            count: Some(2),
            with_scores: true
        }
    );
    let mut buf = BytesMut::from("ZREMRANGEBYRANK z 0 2\r\n");
    assert_eq!(
        parse(&mut buf).unwrap().unwrap(),
        Command::Zremrangebyrank {
            key: Bytes::from_static(b"z"),
            start: 0,
            stop: 2
        }
    );
    let mut buf = BytesMut::from("ZREMRANGEBYSCORE z (1.5 5.0\r\n");
    assert_eq!(
        parse(&mut buf).unwrap().unwrap(),
        Command::Zremrangebyscore {
            key: Bytes::from_static(b"z"),
            min_score: double(1.5),
            min_inc: false,
            max_score: double(5.0),
            max_inc: true
        }
    );
    let mut buf = BytesMut::from("ZREMRANGEBYLEX z [a (c\r\n");
    assert_eq!(
        parse(&mut buf).unwrap().unwrap(),
        Command::Zremrangebylex {
            key: Bytes::from_static(b"z"),
            min: LexBound::Inclusive(Bytes::from_static(b"a")),
            max: LexBound::Exclusive(Bytes::from_static(b"c"))
        }
    );
    let mut buf = BytesMut::from("ZLEXCOUNT z - +\r\n");
    assert_eq!(
        parse(&mut buf).unwrap().unwrap(),
        Command::Zlexcount {
            key: Bytes::from_static(b"z"),
            min: LexBound::UnboundedMin,
            max: LexBound::UnboundedMax
        }
    );
    let mut buf = BytesMut::from("ZSCAN z 0\r\n");
    assert_eq!(
        parse(&mut buf).unwrap().unwrap(),
        Command::Zscan {
            key: Bytes::from_static(b"z"),
            cursor: 0,
            pattern: None,
            count: None
        }
    );

    // LISTS: LTRIM, LSET, LREM, LPOS, LINSERT, LMOVE, BLMOVE
    let mut buf = BytesMut::from("LTRIM l 1 2\r\n");
    assert_eq!(
        parse(&mut buf).unwrap().unwrap(),
        Command::Ltrim {
            key: Bytes::from_static(b"l"),
            start: 1,
            stop: 2
        }
    );
    let mut buf = BytesMut::from("LSET l 0 val\r\n");
    assert_eq!(
        parse(&mut buf).unwrap().unwrap(),
        Command::Lset {
            key: Bytes::from_static(b"l"),
            index: 0,
            element: Bytes::from_static(b"val")
        }
    );
    let mut buf = BytesMut::from("LREM l 2 val\r\n");
    assert_eq!(
        parse(&mut buf).unwrap().unwrap(),
        Command::Lrem {
            key: Bytes::from_static(b"l"),
            count: 2,
            element: Bytes::from_static(b"val")
        }
    );
    let mut buf = BytesMut::from("LPOS l val RANK 2 COUNT 3 MAXLEN 100\r\n");
    assert_eq!(
        parse(&mut buf).unwrap().unwrap(),
        Command::Lpos {
            key: Bytes::from_static(b"l"),
            element: Bytes::from_static(b"val"),
            rank: Some(2),
            count: Some(3),
            maxlen: Some(100)
        }
    );
    let mut buf = BytesMut::from("LINSERT l AFTER p e\r\n");
    assert_eq!(
        parse(&mut buf).unwrap().unwrap(),
        Command::Linsert {
            key: Bytes::from_static(b"l"),
            before: false,
            pivot: Bytes::from_static(b"p"),
            element: Bytes::from_static(b"e")
        }
    );
    let mut buf = BytesMut::from("LMOVE l1 l2 LEFT RIGHT\r\n");
    assert_eq!(
        parse(&mut buf).unwrap().unwrap(),
        Command::Lmove {
            source: Bytes::from_static(b"l1"),
            destination: Bytes::from_static(b"l2"),
            where_from: ListDirection::Left,
            where_to: ListDirection::Right
        }
    );
    let mut buf = BytesMut::from("BLMOVE l1 l2 RIGHT LEFT 1.5\r\n");
    assert_eq!(
        parse(&mut buf).unwrap().unwrap(),
        Command::Blmove {
            source: Bytes::from_static(b"l1"),
            destination: Bytes::from_static(b"l2"),
            where_from: ListDirection::Right,
            where_to: ListDirection::Left,
            timeout: double(1.5)
        }
    );

    // STRINGS: INCRBYFLOAT, SETRANGE, GETRANGE
    let mut buf = BytesMut::from("INCRBYFLOAT num 1.25\r\n");
    assert_eq!(
        parse(&mut buf).unwrap().unwrap(),
        Command::Incrbyfloat {
            key: Bytes::from_static(b"num"),
            increment: double(1.25)
        }
    );
    let mut buf = BytesMut::from("SETRANGE k 2 world\r\n");
    assert_eq!(
        parse(&mut buf).unwrap().unwrap(),
        Command::Setrange {
            key: Bytes::from_static(b"k"),
            offset: 2,
            value: Bytes::from_static(b"world")
        }
    );
    let mut buf = BytesMut::from("GETRANGE k 0 -1\r\n");
    assert_eq!(
        parse(&mut buf).unwrap().unwrap(),
        Command::Getrange {
            key: Bytes::from_static(b"k"),
            start: 0,
            end: -1
        }
    );
}

#[test]
fn test_parse_decimal_bytes_and_ascii_uppercase() {
    // Decimal parsing
    assert_eq!(parse_decimal_bytes(b"0"), Some(0));
    assert_eq!(parse_decimal_bytes(b"42"), Some(42));
    assert_eq!(parse_decimal_bytes(b"1048576"), Some(1048576));
    assert_eq!(parse_decimal_bytes(b""), None);
    assert_eq!(parse_decimal_bytes(b"-1"), None);
    assert_eq!(parse_decimal_bytes(b"abc"), None);

    // ASCII uppercase
    assert_eq!(bytes_to_uppercase_ascii(b"get"), "GET");
    assert_eq!(bytes_to_uppercase_ascii(b"SeT"), "SET");
    assert_eq!(
        bytes_to_uppercase_ascii(b"mget"),
        "MGET"
    );

    // Command parsing through RESP array
    let mut buf = BytesMut::from("*2\r\n$3\r\nget\r\n$3\r\nfoo\r\n");
    let cmd = parse(&mut buf).unwrap().unwrap();
    assert_eq!(cmd, Command::Get(Bytes::from_static(b"foo")));

    let mut buf = BytesMut::from("*3\r\n$3\r\nSET\r\n$3\r\nbar\r\n$3\r\nbaz\r\n");
    let cmd = parse(&mut buf).unwrap().unwrap();
    match cmd {
        Command::SetKey { key, value, .. } => {
            assert_eq!(key, Bytes::from_static(b"bar"));
            assert_eq!(value, Bytes::from_static(b"baz"));
        }
        _ => panic!("Expected Set command"),
    }

    // Unknown command
    let mut buf = BytesMut::from("*1\r\n$7\r\nunknown\r\n");
    let cmd = parse(&mut buf).unwrap().unwrap();
    assert_eq!(cmd, Command::Unknown("UNKNOWN".to_string()));
}

#[test]
fn test_smallvec_exists_and_sadd_parsing() {
    // Single-key EXISTS fast path
    let mut buf = BytesMut::from("*2\r\n$6\r\nEXISTS\r\n$4\r\nmyk1\r\n");
    let cmd = parse(&mut buf).unwrap().unwrap();
    match cmd {
        Command::Exists(keys) => {
            assert_eq!(keys.len(), 1);
            assert!(!keys.spilled());
            assert_eq!(*keys.get(0), Bytes::from_static(b"myk1"));
        }
        _ => panic!("Expected Exists command"),
    }

    // Single-member SADD fast path
    let mut buf = BytesMut::from("*3\r\n$4\r\nSADD\r\n$4\r\nmyk1\r\n$4\r\nmbr1\r\n");
    let cmd = parse(&mut buf).unwrap().unwrap();
    match cmd {
        Command::Sadd { key, members } => {
            assert_eq!(key, Bytes::from_static(b"myk1"));
            assert_eq!(members.len(), 1);
            assert!(!members.spilled());
            assert_eq!(*members.get(0), Bytes::from_static(b"mbr1"));
        }
        _ => panic!("Expected Sadd command"),
    }

    // Multi-key EXISTS
    let mut buf = BytesMut::from("*3\r\n$6\r\nEXISTS\r\n$2\r\nk1\r\n$2\r\nk2\r\n");
    let cmd = parse(&mut buf).unwrap().unwrap();
    match cmd {
        Command::Exists(keys) => {
            assert_eq!(keys.len(), 2);
            assert!(keys.spilled());
            assert_eq!(*keys.get(0), Bytes::from_static(b"k1"));
            assert_eq!(*keys.get(1), Bytes::from_static(b"k2"));
        }
        _ => panic!("Expected Exists command"),
    }
}

#[test]
fn test_resp_lrange_zrange_fast_slice_parser() {
    let mut buf = BytesMut::from(
        "*4\r\n$6\r\nLRANGE\r\n$4\r\nmyl1\r\n$1\r\n0\r\n$2\r\n10\r\n*4\r\n$6\r\nZRANGE\r\n$4\r\nmyz1\r\n$1\r\n0\r\n$2\r\n-1\r\n",
    );
    let cmd1 = parse(&mut buf).unwrap().unwrap();
    assert_eq!(
        cmd1,
        Command::Lrange {
            key: Bytes::from_static(b"myl1"),
            start: 0,
            stop: 10,
        }
    );
    let cmd2 = parse(&mut buf).unwrap().unwrap();
    assert!(buf.is_empty());
    assert_eq!(
        cmd2,
        Command::Zrange {
            key: Bytes::from_static(b"myz1"),
            opts: ZRangeOpts {
                start: 0,
                stop: -1,
                ..Default::default()
            },
        }
    );
}

#[test]
fn test_smallvec_del_and_hset_parsing() {
    // Single-key DEL: not spilled
    let mut buf = BytesMut::from("*2\r\n$3\r\nDEL\r\n$4\r\nmyk1\r\n");
    let cmd = parse(&mut buf).unwrap().unwrap();
    match cmd {
        Command::Del(keys) => {
            assert_eq!(keys.len(), 1);
            assert!(!keys.spilled());
            assert_eq!(*keys.get(0), Bytes::from_static(b"myk1"));
        }
        _ => panic!("Expected Del command"),
    }

    // Single-field HSET: not spilled
    let mut buf = BytesMut::from("*4\r\n$4\r\nHSET\r\n$4\r\nmyh1\r\n$2\r\nf1\r\n$2\r\nv1\r\n");
    let cmd = parse(&mut buf).unwrap().unwrap();
    match cmd {
        Command::Hset { key, fields } => {
            assert_eq!(key, Bytes::from_static(b"myh1"));
            assert_eq!(fields.len(), 1);
            assert!(!fields.spilled());
            assert_eq!(fields.get(0).0, Bytes::from_static(b"f1"));
            assert_eq!(fields.get(0).1, Bytes::from_static(b"v1"));
        }
        _ => panic!("Expected Hset command"),
    }

    // Multi-key DEL: spilled
    let mut buf = BytesMut::from("*3\r\n$3\r\nDEL\r\n$2\r\nk1\r\n$2\r\nk2\r\n");
    let cmd = parse(&mut buf).unwrap().unwrap();
    match cmd {
        Command::Del(keys) => {
            assert_eq!(keys.len(), 2);
            assert!(keys.spilled());
            assert_eq!(*keys.get(0), Bytes::from_static(b"k1"));
            assert_eq!(*keys.get(1), Bytes::from_static(b"k2"));
        }
        _ => panic!("Expected Del command"),
    }

    // Single-element ZADD: not spilled
    let mut buf = BytesMut::from("*4\r\n$4\r\nZADD\r\n$4\r\nmyz1\r\n$2\r\n10\r\n$2\r\nm1\r\n");
    let cmd = parse(&mut buf).unwrap().unwrap();
    match cmd {
        Command::Zadd { key, elements, .. } => {
            assert_eq!(key, Bytes::from_static(b"myz1"));
            assert_eq!(elements.len(), 1);
            assert!(!elements.spilled());
            assert_eq!(elements.get(0).0, double(10.0));
            assert_eq!(elements.get(0).1, Bytes::from_static(b"m1"));
        }
        _ => panic!("Expected Zadd command"),
    }

    // Single-element LPUSH: not spilled
    let mut buf = BytesMut::from("*3\r\n$5\r\nLPUSH\r\n$4\r\nmyl1\r\n$2\r\nv1\r\n");
    let cmd = parse(&mut buf).unwrap().unwrap();
    match cmd {
        Command::Lpush { key, values } => {
            assert_eq!(key, Bytes::from_static(b"myl1"));
            assert_eq!(values.len(), 1);
            assert!(!values.spilled());
            assert_eq!(*values.get(0), Bytes::from_static(b"v1"));
        }
        _ => panic!("Expected Lpush command"),
    }

    // Fast-path multi-key EXISTS (3 keys):
    let mut buf = BytesMut::from("*4\r\n$6\r\nEXISTS\r\n$2\r\nk1\r\n$2\r\nk2\r\n$2\r\nk3\r\n");
    let cmd = parse(&mut buf).unwrap().unwrap();
    match cmd {
        Command::Exists(keys) => {
            assert_eq!(keys.len(), 3);
            assert_eq!(*keys.get(0), Bytes::from_static(b"k1"));
            assert_eq!(*keys.get(1), Bytes::from_static(b"k2"));
            assert_eq!(*keys.get(2), Bytes::from_static(b"k3"));
        }
        _ => panic!("Expected Exists command"),
    }

    // Fast-path MGET (3 keys):
    let mut buf = BytesMut::from("*4\r\n$4\r\nMGET\r\n$2\r\nk1\r\n$2\r\nk2\r\n$2\r\nk3\r\n");
    let cmd = parse(&mut buf).unwrap().unwrap();
    match cmd {
        Command::Mget(keys) => {
            assert_eq!(keys.len(), 3);
            assert_eq!(keys[0], Bytes::from_static(b"k1"));
            assert_eq!(keys[1], Bytes::from_static(b"k2"));
            assert_eq!(keys[2], Bytes::from_static(b"k3"));
        }
        _ => panic!("Expected Mget command"),
    }

    // Fast-path MSET (2 pairs):
    let mut buf =
        BytesMut::from("*5\r\n$4\r\nMSET\r\n$2\r\nk1\r\n$2\r\nv1\r\n$2\r\nk2\r\n$2\r\nv2\r\n");
    let cmd = parse(&mut buf).unwrap().unwrap();
    match cmd {
        Command::Mset(pairs) => {
            assert_eq!(pairs.len(), 2);
            assert_eq!(pairs[0].0, Bytes::from_static(b"k1"));
            assert_eq!(pairs[0].1, Bytes::from_static(b"v1"));
            assert_eq!(pairs[1].0, Bytes::from_static(b"k2"));
            assert_eq!(pairs[1].1, Bytes::from_static(b"v2"));
        }
        _ => panic!("Expected Mset command"),
    }
}

#[test]
fn test_unlink_readonly_wait_object_commands() {
    // UNLINK
    let mut buf = BytesMut::from("*3\r\n$6\r\nUNLINK\r\n$2\r\nk1\r\n$2\r\nk2\r\n");
    let cmd = parse(&mut buf).unwrap().unwrap();
    match cmd {
        Command::Del(keys) => {
            assert_eq!(keys.len(), 2);
            assert_eq!(*keys.get(0), Bytes::from_static(b"k1"));
            assert_eq!(*keys.get(1), Bytes::from_static(b"k2"));
        }
        _ => panic!("Expected Del command for UNLINK"),
    }

    // READONLY
    let mut buf = BytesMut::from("*1\r\n$8\r\nREADONLY\r\n");
    let cmd = parse(&mut buf).unwrap().unwrap();
    assert_eq!(cmd, Command::Readonly);

    // READWRITE
    let mut buf = BytesMut::from("*1\r\n$9\r\nREADWRITE\r\n");
    let cmd = parse(&mut buf).unwrap().unwrap();
    assert_eq!(cmd, Command::Readwrite);

    // WAIT
    let mut buf = BytesMut::from("*3\r\n$4\r\nWAIT\r\n$1\r\n2\r\n$4\r\n1000\r\n");
    let cmd = parse(&mut buf).unwrap().unwrap();
    assert_eq!(
        cmd,
        Command::Wait {
            numreplicas: 2,
            timeout: 1000,
        }
    );

    // WAITAOF
    let mut buf = BytesMut::from("*4\r\n$7\r\nWAITAOF\r\n$1\r\n1\r\n$1\r\n2\r\n$4\r\n1000\r\n");
    let cmd = parse(&mut buf).unwrap().unwrap();
    assert_eq!(
        cmd,
        Command::WaitAof {
            numlocal: 1,
            numreplicas: 2,
            timeout: 1000,
        }
    );

    // OBJECT ENCODING
    let mut buf = BytesMut::from("*3\r\n$6\r\nOBJECT\r\n$8\r\nENCODING\r\n$5\r\nmykey\r\n");
    let cmd = parse(&mut buf).unwrap().unwrap();
    assert_eq!(
        cmd,
        Command::Object(ObjectSubcommand::Encoding(Bytes::from_static(b"mykey")))
    );

    // OBJECT HELP
    let mut buf = BytesMut::from("*2\r\n$6\r\nOBJECT\r\n$4\r\nHELP\r\n");
    let cmd = parse(&mut buf).unwrap().unwrap();
    assert_eq!(cmd, Command::Object(ObjectSubcommand::Help));

    // PROTO MAX BULK LEN
    let mut buf = BytesMut::from("*2\r\n$4\r\nECHO\r\n$6\r\n123456\r\n");
    let mut env = env_for(&buf);
    let old = get_proto_max_bulk_len(&env);
    set_proto_max_bulk_len(&mut env, 5);
    let err = parse_command(&mut buf, &env).unwrap_err();
    assert!(err.contains("excessive bulk string length"));
    set_proto_max_bulk_len(&mut env, old);
    let cmd = parse_command(&mut buf, &env).unwrap().unwrap();
    assert_eq!(cmd, Command::Echo(Bytes::from_static(b"123456")));
}
