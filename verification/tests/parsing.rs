use bytes::{Bytes, BytesMut};
use rudis::command::Command;
use rudis::operands::{Aggregate, Double, Single};
use rudis::readings::{parse_redis_f64, parse_score_bound, FloatReading, ParseEnv};
use rudis::resp::{build_command, find_crlf, find_crlf_at, parse_command, peek_arguments};
use rudis::time::Duration;
use rudis::wire::{write_resp_array_header, write_resp_bulk, write_resp_null};

fn double(x: f64) -> Double {
    Double { bits: x.to_bits() }
}

fn reading(text: &str) -> FloatReading {
    let value: Option<f64> = text.parse().ok();
    let single: Option<f32> = text.parse().ok();
    FloatReading {
        text: text.as_bytes().to_vec(),
        double: value.map(double),
        single: single.map(|x| Single { bits: x.to_bits() }),
        strtod: value.map(double),
        hexadecimal: None,
    }
}

fn env(numerals: &[&str]) -> ParseEnv {
    ParseEnv {
        max_bulk_len: 1024,
        now_ms: 1_000_000,
        floats: numerals.iter().map(|t| reading(t)).collect(),
    }
}

fn parse(input: &[u8]) -> (Result<Option<Command>, String>, usize) {
    let mut buf = BytesMut::from(input);
    let result = parse_command(&mut buf, &env(&["1.5", "2", "3.25", "inf", "nan"]));
    (result, input.len() - buf.len())
}

fn inline(line: &str) -> Result<Command, String> {
    let (result, _) = parse(format!("{}\r\n", line).as_bytes());
    result.map(|c| c.unwrap())
}

fn assert_err(line: &str, message: &str) {
    assert_eq!(inline(line), Err(message.to_string()), "{}", line);
}

#[test]
fn frames_round_trip() {
    let mut out = Vec::new();
    write_resp_array_header(&mut out, 2);
    write_resp_bulk(&mut out, b"ECHO");
    write_resp_bulk(&mut out, b"a\r\nb");
    assert_eq!(out, b"*2\r\n$4\r\nECHO\r\n$4\r\na\r\nb\r\n");
    let (result, used) = parse(&out);
    assert_eq!(result, Ok(Some(Command::Echo(Bytes::from_static(b"a\r\nb")))));
    assert_eq!(used, out.len());
    for cut in 0..out.len() {
        assert_eq!(parse(&out[..cut]), (Ok(None), 0), "{}", cut);
    }
    let mut null = Vec::new();
    write_resp_null(&mut null);
    assert_eq!(null, b"$-1\r\n");
}

#[test]
fn broken_frames_are_refused() {
    let refused = |input: &[u8]| parse(input).0.unwrap_err();
    assert_eq!(refused(b"*x\r\n"), "Invalid array length in RESP frame");
    assert_eq!(refused(b"*-1\r\n"), "Invalid array length in RESP frame");
    assert_eq!(refused(b"*1\r\n:1\r\n"), "Expected bulk string in command array");
    assert_eq!(refused(b"*1\r\n$x\r\n"), "Invalid bulk string length");
    assert_eq!(refused(b"*1\r\n$2000\r\n"), "Protocol error: excessive bulk string length");
    assert_eq!(refused(b"*1\r\n$4\r\nPINGxx"), "Expected CRLF after bulk string data");
}

#[test]
fn several_commands_wait_their_turn() {
    let mut buf = BytesMut::from("ECHO one\r\n*2\r\n$4\r\nECHO\r\n$3\r\ntwo\r\nECHO thr");
    let env = env(&[]);
    assert_eq!(
        parse_command(&mut buf, &env),
        Ok(Some(Command::Echo(Bytes::from_static(b"one"))))
    );
    assert_eq!(
        parse_command(&mut buf, &env),
        Ok(Some(Command::Echo(Bytes::from_static(b"two"))))
    );
    assert_eq!(parse_command(&mut buf, &env), Ok(None));
    assert_eq!(buf, BytesMut::from("ECHO thr"));
    buf.extend_from_slice(b"ee\r\n");
    assert_eq!(
        parse_command(&mut buf, &env),
        Ok(Some(Command::Echo(Bytes::from_static(b"three"))))
    );
    assert_eq!(parse_command(&mut buf, &env), Ok(None));
}

#[test]
fn an_empty_line_is_nothing() {
    assert_eq!(parse(b"\r\n"), (Ok(None), 2));
    assert_eq!(parse(b" \t \r\n"), (Ok(None), 5));
    assert_eq!(parse(b"*0\r\n"), (Ok(None), 4));
    assert_eq!(build_command(Vec::new(), &env(&[])), Ok(None));
}

#[test]
fn storage_commands_carry_a_data_block() {
    let (result, used) = parse(b"set k 5 60 3\r\nabc\r\nrest");
    assert_eq!(used, 19);
    assert_eq!(
        result,
        Ok(Some(Command::MemcachedSet {
            key: Bytes::from_static(b"k"),
            flags: 5,
            exptime: 60,
            bytes: 3,
            noreply: false,
            data: Bytes::from_static(b"abc"),
        }))
    );
    let (result, _) = parse(b"add k 0 0 0 noreply\r\n\r\n");
    assert_eq!(
        result,
        Ok(Some(Command::MemcachedAdd {
            key: Bytes::from_static(b"k"),
            flags: 0,
            exptime: 0,
            bytes: 0,
            noreply: true,
            data: Bytes::new(),
        }))
    );
    let (result, _) = parse(b"replace k 0 0 1\r\nz\r\n");
    assert!(matches!(result, Ok(Some(Command::MemcachedReplace { .. }))));
    assert_eq!(parse(b"set k 0 0 3\r\nab"), (Ok(None), 0));
    assert_eq!(
        parse(b"set k 0 0 3\r\nabcde").0,
        Err("CLIENT_ERROR bad data chunk".to_string())
    );
}

#[test]
fn lines_end_at_the_first_crlf() {
    assert_eq!(find_crlf(b"ab\r\ncd\r\n"), Some(2));
    assert_eq!(find_crlf_at(b"ab\r\ncd\r\n", 3), Some(6));
    assert_eq!(find_crlf(b"ab\r"), None);
    assert_eq!(find_crlf_at(b"\r\n", 9), None);
}

#[test]
fn waiting_arguments_can_be_looked_at() {
    let buf = BytesMut::from("*2\r\n$4\r\nECHO\r\n$2\r\nhi\r\n");
    assert_eq!(
        peek_arguments(&buf, 100),
        vec![Bytes::from_static(b"ECHO"), Bytes::from_static(b"hi")]
    );
    assert_eq!(buf.len(), 22);
    assert!(peek_arguments(&BytesMut::from("*2\r\n$4\r\nECHO\r\n"), 100).is_empty());
    assert_eq!(peek_arguments(&BytesMut::from("ECHO hi\r\n"), 100).len(), 2);
    assert!(peek_arguments(&BytesMut::from("ECHO hi"), 100).is_empty());
}

#[test]
fn words_are_read_in_any_case() {
    assert_eq!(inline("gEt k"), Ok(Command::Get(Bytes::from_static(b"k"))));
    assert_eq!(inline("nonsense x"), Ok(Command::Unknown("NONSENSE".to_string())));
    assert_eq!(
        inline("xread count 2 streams a 0-0"),
        Ok(Command::Xread {
            count: Some(2),
            block_ms: None,
            keys: vec![Bytes::from_static(b"a")],
            ids: vec!["0-0".to_string()],
        })
    );
}

#[test]
fn other_bytes_become_replacement_characters() {
    let (result, _) = parse(b"*2\r\n$4\r\nAUTH\r\n$3\r\na\xffb\r\n");
    assert_eq!(
        result,
        Ok(Some(Command::Auth { username: None, password: "a\u{fffd}b".to_string() }))
    );
}

#[test]
fn numbers_are_numbers() {
    let env = env(&["1.5", "inf", "nan", "2"]);
    assert_eq!(parse_redis_f64("1.5", &env), Some(double(1.5)));
    assert_eq!(parse_redis_f64("inf", &env), Some(double(f64::INFINITY)));
    assert_eq!(parse_redis_f64("nan", &env), None);
    assert_eq!(parse_redis_f64("", &env), None);
    assert_eq!(parse_redis_f64(" 2", &env), None);
    assert_eq!(parse_redis_f64("x", &env), None);
    assert_eq!(parse_score_bound(b"(1.5", &env), Ok((double(1.5), false)));
    assert_eq!(parse_score_bound(b"1.5", &env), Ok((double(1.5), true)));
    assert_eq!(parse_score_bound(b"-inf", &env), Ok((double(f64::NEG_INFINITY), true)));
    assert_eq!(parse_score_bound(b"(+inf", &env), Ok((double(f64::INFINITY), false)));
    assert_eq!(parse_score_bound(b"", &env), Err("min or max not specified".to_string()));
    assert_eq!(parse_score_bound(b"x", &env), Err("value is not a valid float".to_string()));
}

#[test]
fn expiry_times_count_from_now() {
    match inline("SET k v EXAT 1060") {
        Ok(Command::SetKey { expire_in, past_expired, .. }) => {
            assert_eq!(expire_in, Some(Duration::from_secs(60)));
            assert!(!past_expired);
        }
        other => panic!("{:?}", other),
    }
    match inline("SET k v PX 1500") {
        Ok(Command::SetKey { expire_in, .. }) => {
            assert_eq!(expire_in, Some(Duration { secs: 1, nanos: 500_000_000 }));
        }
        other => panic!("{:?}", other),
    }
    assert_err("SET k v EX 0", "invalid expire time in 'set' command");
}

#[test]
fn arguments_are_counted() {
    assert_err("GET", "wrong number of arguments for 'get' command");
    assert_err("HSET h f", "wrong number of arguments for 'hset' command");
    assert_err("AUTH", "wrong number of arguments for 'auth' command");
    assert_err("XLEN", "wrong number of arguments for 'xlen' command");
}

#[test]
fn operands_are_checked() {
    assert_err("INCRBY k x", "value is not an integer or out of range");
    assert_err("INCRBYFLOAT k x", "value is not a valid float");
    assert_err("SET k v WHAT", "syntax error");
    assert_err("SETBIT k x 1", "bit offset is not an integer or out of range");
    assert_err("SETBIT k 1 x", "bit is not an integer or out of range");
    assert_err("BITPOS k 2", "The bit argument must be 1 or 0.");
    assert_err("BITOP NOT d a b", "BITOP NOT takes only one source key");
    assert_err("ZADD z NX XX 1.5 m", "XX and NX options at the same time are not compatible");
    assert_err("ZADD z NX GT 1.5 m", "NX and GT, LT options are not compatible");
    assert_err("ZADD z GT LT 1.5 m", "GT and LT options at the same time are not compatible");
    assert_err(
        "ZADD z INCR 1.5 m 2 n",
        "INCR option supports a single increment-element pair",
    );
    assert_err("ZUNION 0 a", "at least 1 input key is needed for 'zunion' command");
    assert_err(
        "ZRANGE z 0 1 LIMIT 0 1",
        "syntax error, LIMIT is only supported in combination with either BYSCORE or BYLEX",
    );
    assert_err(
        "ZRANGE z [a [b BYLEX WITHSCORES",
        "syntax error, WITHSCORES not supported in combination with BYLEX",
    );
    assert_err(
        "LPOS l e RANK 0",
        "RANK can't be zero: use 1 to start from the first match, 2 from the second ... or use negative to start from the end of the list",
    );
    assert_err("LCS a b LEN IDX", "If you want both the length and indexes, please just use IDX.");
    assert_err("BLPOP k x", "timeout is not a float or out of range");
    assert_err("XREAD STREAMS a b 0-0", "ERR Unbalanced XREAD list of streams and IDs");
    assert_err("ACL NOPE", "unknown subcommand 'NOPE' for 'acl'");
    assert_err("DELEX k IFXX v", "Invalid condition for 'delex' command");
    assert_err("DFLYCLUSTER NOPE", "ERR unknown subcommand 'NOPE' for DFLYCLUSTER");
}

#[test]
fn names_are_the_same_in_any_case() {
    let env = env(&[]);
    let build = |words: &[&'static str]| {
        build_command(words.iter().map(|w| Bytes::from_static(w.as_bytes())).collect(), &env)
    };
    assert_eq!(build(&["set", "k", "v", "NX"]), build(&["SeT", "k", "v", "NX"]));
    assert_ne!(build(&["set", "k", "v"]), build(&["set", "K", "v"]));
    assert_eq!(build(&["lpush"]), build(&["LPUSH"]));
    assert_eq!(build(&[]), Ok(None));
    assert_eq!(build(&["abc", "x"]), Ok(Some(Command::Unknown("ABC".to_string()))));
}

#[test]
fn options_that_contradict_are_refused() {
    assert_err("SET k v EX 10 KEEPTTL", "syntax error");
    assert_err("SET k v PX 10 EX 10", "syntax error");
    assert_err("LCS a b LEN IDX", "If you want both the length and indexes, please just use IDX.");
    assert_err("ZADD k NX GT 1 a", "NX and GT, LT options are not compatible");
    assert_err("ZRANGE k 0 1 BYSCORE BYLEX", "syntax error");
    assert_err("ZUNIONSTORE d 1 a WITHSCORES", "syntax error");
    assert_err("ZUNIONSTORE d 2 a b WEIGHTS", "syntax error");
    assert_err("ZINTER 1 a WEIGHTS x", "weight value is not a float");
    assert_eq!(
        inline("zinter 1 a aggregate min withscores"),
        Ok(Command::Zinter {
            keys: vec![Bytes::from_static(b"a")],
            weights: Vec::new(),
            aggregate: Aggregate::Min,
            with_scores: true,
        })
    );
}
