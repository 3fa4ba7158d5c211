//! Strings, counters and expiry.
use bytes::Bytes;
use vstd::prelude::*;

use crate::command::{
    Command, CommandView, ObjectSubcommand, ObjectSubcommandView, SetCondition, SetConditionView,
    built, built_opt,
};
use crate::lists::{
    contents, key_list_from, keys_from, no_pairs, pair_contents, paired, pairs_from, push_pair,
};
use crate::numbers::{
    i128_of, i64_of, read_i128, read_i64, read_u128, read_u64, read_usize, u128_of, u64_of,
    usize_of,
};
use crate::operands::{Double, MsetexCondition, MsetexExpiry};
use crate::readings::{ParseEnv, redis_double, redis_double_of};
use crate::text::{
    join2, same_text, spells, spells_word, upper, upper_utf8, upper_utf8_word, upper_word,
};
use crate::time::{Duration, millis_to, millis_until, seconds_until, span_to};

verus! {

/// What `GET` builds from its arguments.
pub open spec fn get_spec(a: Seq<Seq<u8>>) -> Result<CommandView, Seq<char>> {
    if a.len() < 2 {
        Err("wrong number of arguments for 'get' command"@)
    } else if a.len() == 2 {
        Ok(CommandView::Get(a[1]))
    } else {
        Ok(CommandView::MemcachedGet { keys: a.skip(1) })
    }
}

pub(crate) fn build_get(args: &Vec<Bytes>) -> (r: Result<Command, String>)
    requires
        args.len() > 0,
    ensures
        built(r) == get_spec(contents(args@)),
{
    if args.len() < 2 {
        return Err("wrong number of arguments for 'get' command".to_owned());
    }
    if args.len() == 2 {
        Ok(Command::Get(args[1].clone()))
    } else {
        Ok(Command::MemcachedGet { keys: keys_from(args, 1) })
    }
}

/// What `GETEX` makes of its arguments from `i` on, given what came before them.
pub open spec fn getex_options(
    a: Seq<Seq<u8>>,
    env: &ParseEnv,
    expire_in: Option<Duration>,
    persist: bool,
    i: int,
) -> Result<(Option<Duration>, bool), Seq<char>>
    decreases a.len() - i,
{
    if i >= a.len() {
        Ok((expire_in, persist))
    } else {
        let opt = upper_word(a[i]);
        if opt == "EX"@ {
            if a.len() - i <= 1 {
                Err("syntax error"@)
            } else {
                match u64_of(a[i + 1]) {
                    None => Err("value is not an integer or out of range"@),
                    Some(sec) => {
                        let expire_in = Some(Duration::of_secs(sec));
                        let i: int = i + 2;
                        getex_options(a, env, expire_in, persist, i)
                    },
                }
            }
        } else if opt == "PX"@ {
            if a.len() - i <= 1 {
                Err("syntax error"@)
            } else {
                match u64_of(a[i + 1]) {
                    None => Err("value is not an integer or out of range"@),
                    Some(ms) => {
                        let expire_in = Some(Duration::of_millis(ms));
                        let i: int = i + 2;
                        getex_options(a, env, expire_in, persist, i)
                    },
                }
            }
        } else if opt == "EXAT"@ {
            if a.len() - i <= 1 {
                Err("syntax error"@)
            } else {
                match u64_of(a[i + 1]) {
                    None => Err("value is not an integer or out of range"@),
                    Some(ts) => {
                        let expire_in = Some(span_to(ts, (env.now_ms / 1000)));
                        let i: int = i + 2;
                        getex_options(a, env, expire_in, persist, i)
                    },
                }
            }
        } else if opt == "PXAT"@ {
            if a.len() - i <= 1 {
                Err("syntax error"@)
            } else {
                match u64_of(a[i + 1]) {
                    None => Err("value is not an integer or out of range"@),
                    Some(ts) => {
                        let expire_in = Some(millis_to(ts, env.now_ms));
                        let i: int = i + 2;
                        getex_options(a, env, expire_in, persist, i)
                    },
                }
            }
        } else if opt == "PERSIST"@ {
            let persist = true;
            let i: int = i + 1;
            getex_options(a, env, expire_in, persist, i)
        } else {
            Err("syntax error"@)
        }
    }
}

/// What `GETEX` builds from its arguments.
pub open spec fn getex_spec(a: Seq<Seq<u8>>, env: &ParseEnv) -> Result<CommandView, Seq<char>> {
    if a.len() < 2 {
        Err("wrong number of arguments for 'getex' command"@)
    } else {
        let expire_in: Option<Duration> = None;
        let persist = false;
        let i: int = 2;
        match getex_options(a, env, expire_in, persist, i) {
            Err(e) => Err(e),
            Ok((expire_in, persist)) => {
                Ok(CommandView::Getex { key: a[1], expire_in, persist })
            },
        }
    }
}

#[verifier::loop_isolation(false)]
pub(crate) fn build_getex(args: &Vec<Bytes>, env: &ParseEnv) -> (r: Result<Command, String>)
    requires
        args.len() > 0,
    ensures
        built(r) == getex_spec(contents(args@), env),
{
    if args.len() < 2 {
        return Err("wrong number of arguments for 'getex' command".to_owned());
    }
    let mut expire_in: Option<Duration> = None;
    let mut persist: bool = false;
    let mut i: usize = 2;
    let ghost goal_getex_options = getex_options(
        contents(args@),
        env,
        expire_in,
        persist,
        i as int,
    );
    while i < args.len()
        invariant
            i <= args.len(),
            getex_options(contents(args@), env, expire_in, persist, i as int) == goal_getex_options,
        decreases args.len() - i,
    {
        let opt: String = upper(&args[i]);
        if same_text(&opt, "EX") {
            if args.len() - i <= 1 {
                return Err("syntax error".to_owned());
            }
            let sec: u64 = match read_u64(args[i + 1].as_ref()) {
                Some(v) => v,
                None => return Err("value is not an integer or out of range".to_owned()),
            };
            expire_in = Some(Duration::from_secs(sec));
            i = i + 2;
        } else if same_text(&opt, "PX") {
            if args.len() - i <= 1 {
                return Err("syntax error".to_owned());
            }
            let ms: u64 = match read_u64(args[i + 1].as_ref()) {
                Some(v) => v,
                None => return Err("value is not an integer or out of range".to_owned()),
            };
            expire_in = Some(Duration::from_millis(ms));
            i = i + 2;
        } else if same_text(&opt, "EXAT") {
            if args.len() - i <= 1 {
                return Err("syntax error".to_owned());
            }
            let ts: u64 = match read_u64(args[i + 1].as_ref()) {
                Some(v) => v,
                None => return Err("value is not an integer or out of range".to_owned()),
            };
            expire_in = Some(seconds_until(ts, (env.now_ms / 1000)));
            i = i + 2;
        } else if same_text(&opt, "PXAT") {
            if args.len() - i <= 1 {
                return Err("syntax error".to_owned());
            }
            let ts: u64 = match read_u64(args[i + 1].as_ref()) {
                Some(v) => v,
                None => return Err("value is not an integer or out of range".to_owned()),
            };
            expire_in = Some(millis_until(ts, env.now_ms));
            i = i + 2;
        } else if same_text(&opt, "PERSIST") {
            persist = true;
            i = i + 1;
        } else {
            return Err("syntax error".to_owned());
        }
    }
    Ok(Command::Getex { key: args[1].clone(), expire_in, persist })
}

/// What `SET` / `PUT` makes of its arguments from `i` on, given what came before them.
pub open spec fn set_options(
    a: Seq<Seq<u8>>,
    env: &ParseEnv,
    expire_in: Option<Duration>,
    condition: SetConditionView,
    conditioned: bool,
    get: bool,
    keepttl: bool,
    past_expired: bool,
    has_expiry: bool,
    i: int,
) -> Result<(Option<Duration>, SetConditionView, bool, bool, bool), Seq<char>>
    decreases a.len() - i,
{
    if i >= a.len() {
        Ok((expire_in, condition, get, keepttl, past_expired))
    } else {
        let opt = upper_word(a[i]);
        if opt == "NX"@ {
            if conditioned {
                Err("syntax error"@)
            } else {
                let condition = SetConditionView::Nx;
                let conditioned = true;
                let i: int = i + 1;
                set_options(
                    a,
                    env,
                    expire_in,
                    condition,
                    conditioned,
                    get,
                    keepttl,
                    past_expired,
                    has_expiry,
                    i,
                )
            }
        } else if opt == "XX"@ {
            if conditioned {
                Err("syntax error"@)
            } else {
                let condition = SetConditionView::Xx;
                let conditioned = true;
                let i: int = i + 1;
                set_options(
                    a,
                    env,
                    expire_in,
                    condition,
                    conditioned,
                    get,
                    keepttl,
                    past_expired,
                    has_expiry,
                    i,
                )
            }
        } else if opt == "IFEQ"@ {
            if conditioned || a.len() - i <= 1 {
                Err("syntax error"@)
            } else {
                let condition = SetConditionView::Ifeq(a[i + 1]);
                let conditioned = true;
                let i: int = i + 2;
                set_options(
                    a,
                    env,
                    expire_in,
                    condition,
                    conditioned,
                    get,
                    keepttl,
                    past_expired,
                    has_expiry,
                    i,
                )
            }
        } else if opt == "IFNE"@ {
            if conditioned || a.len() - i <= 1 {
                Err("syntax error"@)
            } else {
                let condition = SetConditionView::Ifne(a[i + 1]);
                let conditioned = true;
                let i: int = i + 2;
                set_options(
                    a,
                    env,
                    expire_in,
                    condition,
                    conditioned,
                    get,
                    keepttl,
                    past_expired,
                    has_expiry,
                    i,
                )
            }
        } else if opt == "IFDEQ"@ {
            if conditioned || a.len() - i <= 1 {
                Err("syntax error"@)
            } else {
                let condition = SetConditionView::Ifdeq(a[i + 1]);
                let conditioned = true;
                let i: int = i + 2;
                set_options(
                    a,
                    env,
                    expire_in,
                    condition,
                    conditioned,
                    get,
                    keepttl,
                    past_expired,
                    has_expiry,
                    i,
                )
            }
        } else if opt == "IFDNE"@ {
            if conditioned || a.len() - i <= 1 {
                Err("syntax error"@)
            } else {
                let condition = SetConditionView::Ifdne(a[i + 1]);
                let conditioned = true;
                let i: int = i + 2;
                set_options(
                    a,
                    env,
                    expire_in,
                    condition,
                    conditioned,
                    get,
                    keepttl,
                    past_expired,
                    has_expiry,
                    i,
                )
            }
        } else if opt == "GET"@ {
            let get = true;
            let i: int = i + 1;
            set_options(
                a,
                env,
                expire_in,
                condition,
                conditioned,
                get,
                keepttl,
                past_expired,
                has_expiry,
                i,
            )
        } else if opt == "KEEPTTL"@ {
            if has_expiry || keepttl {
                Err("syntax error"@)
            } else {
                let keepttl = true;
                let i: int = i + 1;
                set_options(
                    a,
                    env,
                    expire_in,
                    condition,
                    conditioned,
                    get,
                    keepttl,
                    past_expired,
                    has_expiry,
                    i,
                )
            }
        } else if opt == "EX"@ {
            if has_expiry || keepttl || a.len() - i <= 1 {
                Err("syntax error"@)
            } else {
                match i64_of(a[i + 1]) {
                    None => Err("value is not an integer or out of range"@),
                    Some(secs) => {
                        if secs <= 0 || secs > 9223372036854775 {
                            Err("invalid expire time in 'set' command"@)
                        } else {
                            let expire_in = Some(Duration::of_secs(secs as u64));
                            let has_expiry = true;
                            let i: int = i + 2;
                            set_options(
                                a,
                                env,
                                expire_in,
                                condition,
                                conditioned,
                                get,
                                keepttl,
                                past_expired,
                                has_expiry,
                                i,
                            )
                        }
                    },
                }
            }
        } else if opt == "PX"@ {
            if has_expiry || keepttl || a.len() - i <= 1 {
                Err("syntax error"@)
            } else {
                match i64_of(a[i + 1]) {
                    None => Err("value is not an integer or out of range"@),
                    Some(ms) => {
                        if ms <= 0 {
                            Err("invalid expire time in 'set' command"@)
                        } else if ms as i128 + env.now_ms as i128 > 9223372036854775807 {
                            Err("invalid expire time in 'set' command"@)
                        } else {
                            let expire_in = Some(Duration::of_millis(ms as u64));
                            let has_expiry = true;
                            let i: int = i + 2;
                            set_options(
                                a,
                                env,
                                expire_in,
                                condition,
                                conditioned,
                                get,
                                keepttl,
                                past_expired,
                                has_expiry,
                                i,
                            )
                        }
                    },
                }
            }
        } else if opt == "EXAT"@ {
            if has_expiry || keepttl || a.len() - i <= 1 {
                Err("syntax error"@)
            } else {
                match i64_of(a[i + 1]) {
                    None => Err("value is not an integer or out of range"@),
                    Some(ts) => {
                        if ts <= 0 || ts > 9223372036854775 {
                            Err("invalid expire time in 'set' command"@)
                        } else {
                            let (expire_in, past_expired) = if ts as u64 > (env.now_ms / 1000) {
                                let expire_in = Some(Duration::of_secs((ts as u64 - (env.now_ms / 1000)) as u64));
                                (expire_in, past_expired)
                            } else {
                                let past_expired = true;
                                (expire_in, past_expired)
                            };
                            let has_expiry = true;
                            let i: int = i + 2;
                            set_options(
                                a,
                                env,
                                expire_in,
                                condition,
                                conditioned,
                                get,
                                keepttl,
                                past_expired,
                                has_expiry,
                                i,
                            )
                        }
                    },
                }
            }
        } else if opt == "PXAT"@ {
            if has_expiry || keepttl || a.len() - i <= 1 {
                Err("syntax error"@)
            } else {
                match i128_of(a[i + 1]) {
                    None => Err("value is not an integer or out of range"@),
                    Some(ts) => {
                        if ts <= 0 || ts > 9223372036854775807 {
                            Err("invalid expire time in 'set' command"@)
                        } else {
                            let (expire_in, past_expired) = if ts as u64 > env.now_ms {
                                let expire_in = Some(Duration::of_millis((ts as u64 - env.now_ms) as u64));
                                (expire_in, past_expired)
                            } else {
                                let past_expired = true;
                                (expire_in, past_expired)
                            };
                            let has_expiry = true;
                            let i: int = i + 2;
                            set_options(
                                a,
                                env,
                                expire_in,
                                condition,
                                conditioned,
                                get,
                                keepttl,
                                past_expired,
                                has_expiry,
                                i,
                            )
                        }
                    },
                }
            }
        } else {
            Err("syntax error"@)
        }
    }
}

/// What `SET` / `PUT` builds from its arguments.
pub open spec fn set_spec(a: Seq<Seq<u8>>, env: &ParseEnv) -> Result<CommandView, Seq<char>> {
    if a.len() < 3 {
        Err("wrong number of arguments for 'set'/'put' command"@)
    } else {
        let expire_in: Option<Duration> = None;
        let condition = SetConditionView::Always;
        let conditioned = false;
        let get = false;
        let keepttl = false;
        let past_expired = false;
        let has_expiry = false;
        let i: int = 3;
        match set_options(
            a,
            env,
            expire_in,
            condition,
            conditioned,
            get,
            keepttl,
            past_expired,
            has_expiry,
            i,
        ) {
            Err(e) => Err(e),
            Ok((expire_in, condition, get, keepttl, past_expired)) => {
                Ok(CommandView::SetKey {
                    key: a[1],
                    value: a[2],
                    expire_in,
                    condition,
                    get,
                    keepttl,
                    past_expired,
                })
            },
        }
    }
}

#[verifier::loop_isolation(false)]
pub(crate) fn build_set(args: &Vec<Bytes>, env: &ParseEnv) -> (r: Result<Command, String>)
    requires
        args.len() > 0,
    ensures
        built(r) == set_spec(contents(args@), env),
{
    if args.len() < 3 {
        return Err("wrong number of arguments for 'set'/'put' command".to_owned());
    }
    let mut expire_in: Option<Duration> = None;
    let mut condition: SetCondition = SetCondition::Always;
    let mut conditioned: bool = false;
    let mut get: bool = false;
    let mut keepttl: bool = false;
    let mut past_expired: bool = false;
    let mut has_expiry: bool = false;
    let mut i: usize = 3;
    let ghost goal_set_options = set_options(
        contents(args@),
        env,
        expire_in,
        condition@,
        conditioned,
        get,
        keepttl,
        past_expired,
        has_expiry,
        i as int,
    );
    while i < args.len()
        invariant
            i <= args.len(),
            set_options(
                contents(args@),
                env,
                expire_in,
                condition@,
                conditioned,
                get,
                keepttl,
                past_expired,
                has_expiry,
                i as int,
            ) == goal_set_options,
        decreases args.len() - i,
    {
        let opt: String = upper(&args[i]);
        if same_text(&opt, "NX") {
            if conditioned {
                return Err("syntax error".to_owned());
            }
            condition = SetCondition::Nx;
            conditioned = true;
            i = i + 1;
        } else if same_text(&opt, "XX") {
            if conditioned {
                return Err("syntax error".to_owned());
            }
            condition = SetCondition::Xx;
            conditioned = true;
            i = i + 1;
        } else if same_text(&opt, "IFEQ") {
            if conditioned || args.len() - i <= 1 {
                return Err("syntax error".to_owned());
            }
            condition = SetCondition::Ifeq(args[i + 1].clone());
            conditioned = true;
            i = i + 2;
        } else if same_text(&opt, "IFNE") {
            if conditioned || args.len() - i <= 1 {
                return Err("syntax error".to_owned());
            }
            condition = SetCondition::Ifne(args[i + 1].clone());
            conditioned = true;
            i = i + 2;
        } else if same_text(&opt, "IFDEQ") {
            if conditioned || args.len() - i <= 1 {
                return Err("syntax error".to_owned());
            }
            condition = SetCondition::Ifdeq(args[i + 1].clone());
            conditioned = true;
            i = i + 2;
        } else if same_text(&opt, "IFDNE") {
            if conditioned || args.len() - i <= 1 {
                return Err("syntax error".to_owned());
            }
            condition = SetCondition::Ifdne(args[i + 1].clone());
            conditioned = true;
            i = i + 2;
        } else if same_text(&opt, "GET") {
            get = true;
            i = i + 1;
        } else if same_text(&opt, "KEEPTTL") {
            if has_expiry || keepttl {
                return Err("syntax error".to_owned());
            }
            keepttl = true;
            i = i + 1;
        } else if same_text(&opt, "EX") {
            if has_expiry || keepttl || args.len() - i <= 1 {
                return Err("syntax error".to_owned());
            }
            let secs: i64 = match read_i64(args[i + 1].as_ref()) {
                Some(v) => v,
                None => return Err("value is not an integer or out of range".to_owned()),
            };
            if secs <= 0 || secs > 9223372036854775 {
                return Err("invalid expire time in 'set' command".to_owned());
            }
            expire_in = Some(Duration::from_secs(secs as u64));
            has_expiry = true;
            i = i + 2;
        } else if same_text(&opt, "PX") {
            if has_expiry || keepttl || args.len() - i <= 1 {
                return Err("syntax error".to_owned());
            }
            let ms: i64 = match read_i64(args[i + 1].as_ref()) {
                Some(v) => v,
                None => return Err("value is not an integer or out of range".to_owned()),
            };
            if ms <= 0 {
                return Err("invalid expire time in 'set' command".to_owned());
            }
            if ms as i128 + env.now_ms as i128 > 9223372036854775807 {
                return Err("invalid expire time in 'set' command".to_owned());
            }
            expire_in = Some(Duration::from_millis(ms as u64));
            has_expiry = true;
            i = i + 2;
        } else if same_text(&opt, "EXAT") {
            if has_expiry || keepttl || args.len() - i <= 1 {
                return Err("syntax error".to_owned());
            }
            let ts: i64 = match read_i64(args[i + 1].as_ref()) {
                Some(v) => v,
                None => return Err("value is not an integer or out of range".to_owned()),
            };
            if ts <= 0 || ts > 9223372036854775 {
                return Err("invalid expire time in 'set' command".to_owned());
            }
            if ts as u64 > (env.now_ms / 1000) {
                expire_in = Some(Duration::from_secs(ts as u64 - (env.now_ms / 1000)));
            } else {
                past_expired = true;
            }
            has_expiry = true;
            i = i + 2;
        } else if same_text(&opt, "PXAT") {
            if has_expiry || keepttl || args.len() - i <= 1 {
                return Err("syntax error".to_owned());
            }
            let ts: i128 = match read_i128(args[i + 1].as_ref()) {
                Some(v) => v,
                None => return Err("value is not an integer or out of range".to_owned()),
            };
            if ts <= 0 || ts > 9223372036854775807 {
                return Err("invalid expire time in 'set' command".to_owned());
            }
            if ts as u64 > env.now_ms {
                expire_in = Some(Duration::from_millis(ts as u64 - env.now_ms));
            } else {
                past_expired = true;
            }
            has_expiry = true;
            i = i + 2;
        } else {
            return Err("syntax error".to_owned());
        }
    }
    Ok(Command::SetKey {
        key: args[1].clone(),
        value: args[2].clone(),
        expire_in,
        condition,
        get,
        keepttl,
        past_expired,
    })
}

/// What `MGET` builds from its arguments.
pub open spec fn mget_spec(a: Seq<Seq<u8>>) -> Result<CommandView, Seq<char>> {
    if a.len() < 2 {
        Err("wrong number of arguments for 'mget' command"@)
    } else {
        Ok(CommandView::Mget(a.skip(1)))
    }
}

pub(crate) fn build_mget(args: &Vec<Bytes>) -> (r: Result<Command, String>)
    requires
        args.len() > 0,
    ensures
        built(r) == mget_spec(contents(args@)),
{
    if args.len() < 2 {
        return Err("wrong number of arguments for 'mget' command".to_owned());
    }
    Ok(Command::Mget(keys_from(args, 1)))
}

/// What `MSET` builds from its arguments.
pub open spec fn mset_spec(a: Seq<Seq<u8>>) -> Result<CommandView, Seq<char>> {
    if a.len() < 3 || (a.len() - 1) % 2 != 0 {
        Err("wrong number of arguments for 'mset' command"@)
    } else {
        Ok(CommandView::Mset(paired(a.skip(1))))
    }
}

pub(crate) fn build_mset(args: &Vec<Bytes>) -> (r: Result<Command, String>)
    requires
        args.len() > 0,
    ensures
        built(r) == mset_spec(contents(args@)),
{
    if args.len() < 3 || (args.len() - 1) % 2 != 0 {
        return Err("wrong number of arguments for 'mset' command".to_owned());
    }
    Ok(Command::Mset(pairs_from(args, 1)))
}

/// What `MSETEX` makes of its arguments from `i` on, given what came before them.
pub open spec fn msetex_options(
    a: Seq<Seq<u8>>,
    env: &ParseEnv,
    numkeys: usize,
    pairs: Seq<(Seq<u8>, Seq<u8>)>,
    condition: MsetexCondition,
    expiry: MsetexExpiry,
    found: usize,
    i: int,
) -> Result<(Seq<(Seq<u8>, Seq<u8>)>, MsetexCondition, MsetexExpiry, usize), Seq<char>>
    decreases a.len() - i,
{
    if i >= a.len() {
        Ok((pairs, condition, expiry, found))
    } else {
        let opt = upper_utf8_word(a[i]);
        if opt == "NX"@ {
            if condition != MsetexCondition::Always {
                Err("syntax error"@)
            } else {
                let condition = MsetexCondition::Nx;
                let i: int = i + 1;
                msetex_options(a, env, numkeys, pairs, condition, expiry, found, i)
            }
        } else if opt == "XX"@ {
            if condition != MsetexCondition::Always {
                Err("syntax error"@)
            } else {
                let condition = MsetexCondition::Xx;
                let i: int = i + 1;
                msetex_options(a, env, numkeys, pairs, condition, expiry, found, i)
            }
        } else if opt == "KEEPTTL"@ {
            if expiry != MsetexExpiry::NoExpiry {
                Err("syntax error"@)
            } else {
                let expiry = MsetexExpiry::KeepTtl;
                let i: int = i + 1;
                msetex_options(a, env, numkeys, pairs, condition, expiry, found, i)
            }
        } else if opt == "EX"@ {
            if expiry != MsetexExpiry::NoExpiry || a.len() - i <= 1 {
                Err("syntax error"@)
            } else {
                match u64_of(a[i + 1]) {
                    None => Err("syntax error"@),
                    Some(sec) => {
                        let expiry = MsetexExpiry::ExpireIn(Duration::of_secs(sec));
                        let i: int = i + 2;
                        msetex_options(a, env, numkeys, pairs, condition, expiry, found, i)
                    },
                }
            }
        } else if opt == "PX"@ {
            if expiry != MsetexExpiry::NoExpiry || a.len() - i <= 1 {
                Err("syntax error"@)
            } else {
                match u64_of(a[i + 1]) {
                    None => Err("syntax error"@),
                    Some(ms) => {
                        let expiry = MsetexExpiry::ExpireIn(Duration::of_millis(ms));
                        let i: int = i + 2;
                        msetex_options(a, env, numkeys, pairs, condition, expiry, found, i)
                    },
                }
            }
        } else if opt == "EXAT"@ {
            if expiry != MsetexExpiry::NoExpiry || a.len() - i <= 1 {
                Err("syntax error"@)
            } else {
                match u64_of(a[i + 1]) {
                    None => Err("syntax error"@),
                    Some(ts) => {
                        let expiry = MsetexExpiry::ExpireIn(span_to(ts, (env.now_ms / 1000)));
                        let i: int = i + 2;
                        msetex_options(a, env, numkeys, pairs, condition, expiry, found, i)
                    },
                }
            }
        } else if opt == "PXAT"@ {
            if expiry != MsetexExpiry::NoExpiry || a.len() - i <= 1 {
                Err("syntax error"@)
            } else {
                match u128_of(a[i + 1]) {
                    None => Err("syntax error"@),
                    Some(ts) => {
                        let expiry = if ts > env.now_ms as u128 {
                            let expiry = MsetexExpiry::ExpireIn(Duration::of_millis((ts - env.now_ms as u128) as u64));
                            expiry
                        } else {
                            let expiry = MsetexExpiry::ExpireIn(Duration::of_millis(1));
                            expiry
                        };
                        let i: int = i + 2;
                        msetex_options(a, env, numkeys, pairs, condition, expiry, found, i)
                    },
                }
            }
        } else if found < numkeys {
            if a.len() - i <= 1 {
                Err("wrong number of key-value pairs"@)
            } else {
                let pairs = pairs.push((a[i], a[i + 1]));
                let found: usize = (found + 1) as usize;
                let i: int = i + 2;
                msetex_options(a, env, numkeys, pairs, condition, expiry, found, i)
            }
        } else {
            Err("syntax error"@)
        }
    }
}

/// What `MSETEX` builds from its arguments.
pub open spec fn msetex_spec(a: Seq<Seq<u8>>, env: &ParseEnv) -> Result<CommandView, Seq<char>> {
    if a.len() < 2 {
        Err("wrong number of arguments for 'msetex' command"@)
    } else {
        match i64_of(a[1]) {
            None => Err("invalid numkeys value"@),
            Some(wanted) => {
                if wanted < 0 || wanted > 2147483647 {
                    Err("invalid numkeys value"@)
                } else {
                    let numkeys: usize = wanted as usize;
                    let pairs = Seq::<(Seq<u8>, Seq<u8>)>::empty();
                    let condition = MsetexCondition::Always;
                    let expiry = MsetexExpiry::NoExpiry;
                    let found: usize = 0;
                    let i: int = 2;
                    match msetex_options(a, env, numkeys, pairs, condition, expiry, found, i) {
                        Err(e) => Err(e),
                        Ok((pairs, condition, expiry, found)) => {
                            if found != numkeys {
                                Err("wrong number of key-value pairs"@)
                            } else {
                                Ok(CommandView::Msetex { pairs, condition, expiry })
                            }
                        },
                    }
                }
            },
        }
    }
}

#[verifier::loop_isolation(false)]
pub(crate) fn build_msetex(args: &Vec<Bytes>, env: &ParseEnv) -> (r: Result<Command, String>)
    requires
        args.len() > 0,
    ensures
        built(r) == msetex_spec(contents(args@), env),
{
    if args.len() < 2 {
        return Err("wrong number of arguments for 'msetex' command".to_owned());
    }
    let wanted: i64 = match read_i64(args[1].as_ref()) {
        Some(v) => v,
        None => return Err("invalid numkeys value".to_owned()),
    };
    if wanted < 0 || wanted > 2147483647 {
        return Err("invalid numkeys value".to_owned());
    }
    let numkeys: usize = wanted as usize;
    let mut pairs: Vec<(Bytes, Bytes)> = no_pairs();
    let mut condition: MsetexCondition = MsetexCondition::Always;
    let mut expiry: MsetexExpiry = MsetexExpiry::NoExpiry;
    let mut found: usize = 0;
    let mut i: usize = 2;
    let ghost goal_msetex_options = msetex_options(
        contents(args@),
        env,
        numkeys,
        pair_contents(pairs@),
        condition,
        expiry,
        found,
        i as int,
    );
    while i < args.len()
        invariant
            i <= args.len(),
            msetex_options(
                contents(args@),
                env,
                numkeys,
                pair_contents(pairs@),
                condition,
                expiry,
                found,
                i as int,
            ) == goal_msetex_options,
        decreases args.len() - i,
    {
        let opt: String = upper_utf8(&args[i]);
        if same_text(&opt, "NX") {
            if condition != MsetexCondition::Always {
                return Err("syntax error".to_owned());
            }
            condition = MsetexCondition::Nx;
            i = i + 1;
        } else if same_text(&opt, "XX") {
            if condition != MsetexCondition::Always {
                return Err("syntax error".to_owned());
            }
            condition = MsetexCondition::Xx;
            i = i + 1;
        } else if same_text(&opt, "KEEPTTL") {
            if expiry != MsetexExpiry::NoExpiry {
                return Err("syntax error".to_owned());
            }
            expiry = MsetexExpiry::KeepTtl;
            i = i + 1;
        } else if same_text(&opt, "EX") {
            if expiry != MsetexExpiry::NoExpiry || args.len() - i <= 1 {
                return Err("syntax error".to_owned());
            }
            let sec: u64 = match read_u64(args[i + 1].as_ref()) {
                Some(v) => v,
                None => return Err("syntax error".to_owned()),
            };
            expiry = MsetexExpiry::ExpireIn(Duration::from_secs(sec));
            i = i + 2;
        } else if same_text(&opt, "PX") {
            if expiry != MsetexExpiry::NoExpiry || args.len() - i <= 1 {
                return Err("syntax error".to_owned());
            }
            let ms: u64 = match read_u64(args[i + 1].as_ref()) {
                Some(v) => v,
                None => return Err("syntax error".to_owned()),
            };
            expiry = MsetexExpiry::ExpireIn(Duration::from_millis(ms));
            i = i + 2;
        } else if same_text(&opt, "EXAT") {
            if expiry != MsetexExpiry::NoExpiry || args.len() - i <= 1 {
                return Err("syntax error".to_owned());
            }
            let ts: u64 = match read_u64(args[i + 1].as_ref()) {
                Some(v) => v,
                None => return Err("syntax error".to_owned()),
            };
            expiry = MsetexExpiry::ExpireIn(seconds_until(ts, (env.now_ms / 1000)));
            i = i + 2;
        } else if same_text(&opt, "PXAT") {
            if expiry != MsetexExpiry::NoExpiry || args.len() - i <= 1 {
                return Err("syntax error".to_owned());
            }
            let ts: u128 = match read_u128(args[i + 1].as_ref()) {
                Some(v) => v,
                None => return Err("syntax error".to_owned()),
            };
            if ts > env.now_ms as u128 {
                expiry = MsetexExpiry::ExpireIn(Duration::from_millis((ts - env.now_ms as u128) as u64));
            } else {
                expiry = MsetexExpiry::ExpireIn(Duration::from_millis(1));
            }
            i = i + 2;
        } else if found < numkeys {
            if args.len() - i <= 1 {
                return Err("wrong number of key-value pairs".to_owned());
            }
            push_pair(&mut pairs, args[i].clone(), args[i + 1].clone());
            found = found + 1;
            i = i + 2;
        } else {
            return Err("syntax error".to_owned());
        }
    }
    if found != numkeys {
        return Err("wrong number of key-value pairs".to_owned());
    }
    Ok(Command::Msetex { pairs, condition, expiry })
}

/// What `LCS` makes of its arguments from `i` on, given what came before them.
pub open spec fn lcs_options(
    a: Seq<Seq<u8>>,
    len_only: bool,
    idx: bool,
    min_match_len: usize,
    with_match_len: bool,
    i: int,
) -> Result<(bool, bool, usize, bool), Seq<char>>
    decreases a.len() - i,
{
    if i >= a.len() {
        Ok((len_only, idx, min_match_len, with_match_len))
    } else {
        let opt = upper_word(a[i]);
        if opt == "LEN"@ {
            let len_only = true;
            let i: int = i + 1;
            lcs_options(a, len_only, idx, min_match_len, with_match_len, i)
        } else if opt == "IDX"@ {
            let idx = true;
            let i: int = i + 1;
            lcs_options(a, len_only, idx, min_match_len, with_match_len, i)
        } else if opt == "WITHMATCHLEN"@ {
            let with_match_len = true;
            let i: int = i + 1;
            lcs_options(a, len_only, idx, min_match_len, with_match_len, i)
        } else if opt == "MINMATCHLEN"@ {
            if a.len() - i <= 1 {
                Err("syntax error"@)
            } else {
                match i64_of(a[i + 1]) {
                    None => Err("value is not an integer or out of range"@),
                    Some(m) => {
                        if m < 0 {
                            Err("value is not an integer or out of range"@)
                        } else {
                            let min_match_len: usize = m as usize;
                            let i: int = i + 2;
                            lcs_options(a, len_only, idx, min_match_len, with_match_len, i)
                        }
                    },
                }
            }
        } else {
            Err("syntax error"@)
        }
    }
}

/// What `LCS` builds from its arguments.
pub open spec fn lcs_spec(a: Seq<Seq<u8>>) -> Result<CommandView, Seq<char>> {
    if a.len() < 3 {
        Err("wrong number of arguments for 'lcs' command"@)
    } else {
        let len_only = false;
        let idx = false;
        let min_match_len: usize = 0;
        let with_match_len = false;
        let i: int = 3;
        match lcs_options(a, len_only, idx, min_match_len, with_match_len, i) {
            Err(e) => Err(e),
            Ok((len_only, idx, min_match_len, with_match_len)) => {
                if len_only && idx {
                    Err("If you want both the length and indexes, please just use IDX."@)
                } else {
                    Ok(CommandView::Lcs {
                        key1: a[1],
                        key2: a[2],
                        len_only,
                        idx,
                        min_match_len,
                        with_match_len,
                    })
                }
            },
        }
    }
}

#[verifier::loop_isolation(false)]
pub(crate) fn build_lcs(args: &Vec<Bytes>) -> (r: Result<Command, String>)
    requires
        args.len() > 0,
    ensures
        built(r) == lcs_spec(contents(args@)),
{
    if args.len() < 3 {
        return Err("wrong number of arguments for 'lcs' command".to_owned());
    }
    let mut len_only: bool = false;
    let mut idx: bool = false;
    let mut min_match_len: usize = 0;
    let mut with_match_len: bool = false;
    let mut i: usize = 3;
    let ghost goal_lcs_options = lcs_options(
        contents(args@),
        len_only,
        idx,
        min_match_len,
        with_match_len,
        i as int,
    );
    while i < args.len()
        invariant
            i <= args.len(),
            lcs_options(
                contents(args@),
                len_only,
                idx,
                min_match_len,
                with_match_len,
                i as int,
            ) == goal_lcs_options,
        decreases args.len() - i,
    {
        let opt: String = upper(&args[i]);
        if same_text(&opt, "LEN") {
            len_only = true;
            i = i + 1;
        } else if same_text(&opt, "IDX") {
            idx = true;
            i = i + 1;
        } else if same_text(&opt, "WITHMATCHLEN") {
            with_match_len = true;
            i = i + 1;
        } else if same_text(&opt, "MINMATCHLEN") {
            if args.len() - i <= 1 {
                return Err("syntax error".to_owned());
            }
            let m: i64 = match read_i64(args[i + 1].as_ref()) {
                Some(v) => v,
                None => return Err("value is not an integer or out of range".to_owned()),
            };
            if m < 0 {
                return Err("value is not an integer or out of range".to_owned());
            }
            min_match_len = m as usize;
            i = i + 2;
        } else {
            return Err("syntax error".to_owned());
        }
    }
    if len_only && idx {
        return Err("If you want both the length and indexes, please just use IDX.".to_owned());
    }
    Ok(Command::Lcs {
        key1: args[1].clone(),
        key2: args[2].clone(),
        len_only,
        idx,
        min_match_len,
        with_match_len,
    })
}

/// What `DEL` / `UNLINK` builds from its arguments.
pub open spec fn del_spec(a: Seq<Seq<u8>>) -> Result<CommandView, Seq<char>> {
    if a.len() < 2 {
        Err("wrong number of arguments for 'del' command"@)
    } else {
        Ok(CommandView::Del(a.skip(1)))
    }
}

pub(crate) fn build_del(args: &Vec<Bytes>) -> (r: Result<Command, String>)
    requires
        args.len() > 0,
    ensures
        built(r) == del_spec(contents(args@)),
{
    if args.len() < 2 {
        return Err("wrong number of arguments for 'del' command".to_owned());
    }
    Ok(Command::Del(key_list_from(args, 1)))
}

/// What `DELETE` builds from its arguments.
pub open spec fn delete_spec(a: Seq<Seq<u8>>) -> Result<CommandView, Seq<char>> {
    if a.len() < 2 {
        Err("wrong number of arguments for 'del' command"@)
    } else {
        Ok(CommandView::MemcachedDelete {
            key: a[1],
            noreply: a.len() > 2 && spells(a[2], "NOREPLY"@),
        })
    }
}

pub(crate) fn build_delete(args: &Vec<Bytes>) -> (r: Result<Command, String>)
    requires
        args.len() > 0,
    ensures
        built(r) == delete_spec(contents(args@)),
{
    if args.len() < 2 {
        return Err("wrong number of arguments for 'del' command".to_owned());
    }
    Ok(Command::MemcachedDelete {
        key: args[1].clone(),
        noreply: args.len() > 2 && spells_word(args[2].as_ref(), "NOREPLY"),
    })
}

/// What `READONLY` builds from its arguments.
pub open spec fn readonly_spec(a: Seq<Seq<u8>>) -> Result<CommandView, Seq<char>> {
    Ok(CommandView::Readonly)
}

pub(crate) fn build_readonly(args: &Vec<Bytes>) -> (r: Result<Command, String>)
    requires
        args.len() > 0,
    ensures
        built(r) == readonly_spec(contents(args@)),
{
    Ok(Command::Readonly)
}

/// What `READWRITE` builds from its arguments.
pub open spec fn readwrite_spec(a: Seq<Seq<u8>>) -> Result<CommandView, Seq<char>> {
    Ok(CommandView::Readwrite)
}

pub(crate) fn build_readwrite(args: &Vec<Bytes>) -> (r: Result<Command, String>)
    requires
        args.len() > 0,
    ensures
        built(r) == readwrite_spec(contents(args@)),
{
    Ok(Command::Readwrite)
}

/// What `WAIT` builds from its arguments.
pub open spec fn wait_spec(a: Seq<Seq<u8>>) -> Result<CommandView, Seq<char>> {
    if a.len() < 3 {
        Err("wrong number of arguments for 'wait' command"@)
    } else {
        match usize_of(a[1]) {
            None => Err("value is not an integer or out of range"@),
            Some(numreplicas) => {
                match u64_of(a[2]) {
                    None => Err("value is not an integer or out of range"@),
                    Some(timeout) => {
                        Ok(CommandView::Wait { numreplicas, timeout })
                    },
                }
            },
        }
    }
}

pub(crate) fn build_wait(args: &Vec<Bytes>) -> (r: Result<Command, String>)
    requires
        args.len() > 0,
    ensures
        built(r) == wait_spec(contents(args@)),
{
    if args.len() < 3 {
        return Err("wrong number of arguments for 'wait' command".to_owned());
    }
    let numreplicas: usize = match read_usize(args[1].as_ref()) {
        Some(v) => v,
        None => return Err("value is not an integer or out of range".to_owned()),
    };
    let timeout: u64 = match read_u64(args[2].as_ref()) {
        Some(v) => v,
        None => return Err("value is not an integer or out of range".to_owned()),
    };
    Ok(Command::Wait { numreplicas, timeout })
}

/// What `WAITAOF` builds from its arguments.
pub open spec fn waitaof_spec(a: Seq<Seq<u8>>) -> Result<CommandView, Seq<char>> {
    if a.len() < 4 {
        Err("wrong number of arguments for 'waitaof' command"@)
    } else {
        match usize_of(a[1]) {
            None => Err("value is not an integer or out of range"@),
            Some(numlocal) => {
                match usize_of(a[2]) {
                    None => Err("value is not an integer or out of range"@),
                    Some(numreplicas) => {
                        match u64_of(a[3]) {
                            None => Err("value is not an integer or out of range"@),
                            Some(timeout) => {
                                Ok(CommandView::WaitAof { numlocal, numreplicas, timeout })
                            },
                        }
                    },
                }
            },
        }
    }
}

pub(crate) fn build_waitaof(args: &Vec<Bytes>) -> (r: Result<Command, String>)
    requires
        args.len() > 0,
    ensures
        built(r) == waitaof_spec(contents(args@)),
{
    if args.len() < 4 {
        return Err("wrong number of arguments for 'waitaof' command".to_owned());
    }
    let numlocal: usize = match read_usize(args[1].as_ref()) {
        Some(v) => v,
        None => return Err("value is not an integer or out of range".to_owned()),
    };
    let numreplicas: usize = match read_usize(args[2].as_ref()) {
        Some(v) => v,
        None => return Err("value is not an integer or out of range".to_owned()),
    };
    let timeout: u64 = match read_u64(args[3].as_ref()) {
        Some(v) => v,
        None => return Err("value is not an integer or out of range".to_owned()),
    };
    Ok(Command::WaitAof { numlocal, numreplicas, timeout })
}

/// What `OBJECT` builds from its arguments.
pub open spec fn object_spec(a: Seq<Seq<u8>>) -> Result<CommandView, Seq<char>> {
    if a.len() < 2 {
        Err("wrong number of arguments for 'object' command"@)
    } else {
        let sub = upper_word(a[1]);
        if sub == "ENCODING"@ {
            if a.len() < 3 {
                Err("wrong number of arguments for 'object encoding' command"@)
            } else {
                Ok(CommandView::Object(ObjectSubcommandView::Encoding(a[2])))
            }
        } else if sub == "FREQ"@ {
            if a.len() < 3 {
                Err("wrong number of arguments for 'object freq' command"@)
            } else {
                Ok(CommandView::Object(ObjectSubcommandView::Freq(a[2])))
            }
        } else if sub == "IDLETIME"@ {
            if a.len() < 3 {
                Err("wrong number of arguments for 'object idletime' command"@)
            } else {
                Ok(CommandView::Object(ObjectSubcommandView::Idletime(a[2])))
            }
        } else if sub == "REFCOUNT"@ {
            if a.len() < 3 {
                Err("wrong number of arguments for 'object refcount' command"@)
            } else {
                Ok(CommandView::Object(ObjectSubcommandView::Refcount(a[2])))
            }
        } else if sub == "HELP"@ {
            Ok(CommandView::Object(ObjectSubcommandView::Help))
        } else {
            Ok(CommandView::Unknown("OBJECT "@ + sub))
        }
    }
}

pub(crate) fn build_object(args: &Vec<Bytes>) -> (r: Result<Command, String>)
    requires
        args.len() > 0,
    ensures
        built(r) == object_spec(contents(args@)),
{
    if args.len() < 2 {
        return Err("wrong number of arguments for 'object' command".to_owned());
    }
    let sub: String = upper(&args[1]);
    if same_text(&sub, "ENCODING") {
        if args.len() < 3 {
            return Err("wrong number of arguments for 'object encoding' command".to_owned());
        }
        Ok(Command::Object(ObjectSubcommand::Encoding(args[2].clone())))
    } else if same_text(&sub, "FREQ") {
        if args.len() < 3 {
            return Err("wrong number of arguments for 'object freq' command".to_owned());
        }
        Ok(Command::Object(ObjectSubcommand::Freq(args[2].clone())))
    } else if same_text(&sub, "IDLETIME") {
        if args.len() < 3 {
            return Err("wrong number of arguments for 'object idletime' command".to_owned());
        }
        Ok(Command::Object(ObjectSubcommand::Idletime(args[2].clone())))
    } else if same_text(&sub, "REFCOUNT") {
        if args.len() < 3 {
            return Err("wrong number of arguments for 'object refcount' command".to_owned());
        }
        Ok(Command::Object(ObjectSubcommand::Refcount(args[2].clone())))
    } else if same_text(&sub, "HELP") {
        Ok(Command::Object(ObjectSubcommand::Help))
    } else {
        Ok(Command::Unknown(join2("OBJECT ", sub.as_str())))
    }
}

/// What `EXISTS` builds from its arguments.
pub open spec fn exists_spec(a: Seq<Seq<u8>>) -> Result<CommandView, Seq<char>> {
    if a.len() < 2 {
        Err("wrong number of arguments for 'exists' command"@)
    } else {
        Ok(CommandView::Exists(a.skip(1)))
    }
}

pub(crate) fn build_exists(args: &Vec<Bytes>) -> (r: Result<Command, String>)
    requires
        args.len() > 0,
    ensures
        built(r) == exists_spec(contents(args@)),
{
    if args.len() < 2 {
        return Err("wrong number of arguments for 'exists' command".to_owned());
    }
    Ok(Command::Exists(key_list_from(args, 1)))
}

/// What `INCR` builds from its arguments.
pub open spec fn incr_spec(a: Seq<Seq<u8>>) -> Result<CommandView, Seq<char>> {
    if a.len() < 2 {
        Err("wrong number of arguments for 'incr' command"@)
    } else if a.len() >= 3 {
        match u64_of(a[2]) {
            Some(value) => {
                Ok(CommandView::MemcachedIncr {
                    key: a[1],
                    value,
                    noreply: a.len() > 3 && spells(a[3], "NOREPLY"@),
                })
            },
            None => {
                Ok(CommandView::IncrBy(a[1], 1))
            },
        }
    } else {
        Ok(CommandView::IncrBy(a[1], 1))
    }
}

pub(crate) fn build_incr(args: &Vec<Bytes>) -> (r: Result<Command, String>)
    requires
        args.len() > 0,
    ensures
        built(r) == incr_spec(contents(args@)),
{
    if args.len() < 2 {
        return Err("wrong number of arguments for 'incr' command".to_owned());
    }
    if args.len() >= 3 {
        match read_u64(args[2].as_ref()) {
            Some(value) => {
                Ok(Command::MemcachedIncr {
                    key: args[1].clone(),
                    value,
                    noreply: args.len() > 3 && spells_word(args[3].as_ref(), "NOREPLY"),
                })
            },
            None => {
                Ok(Command::IncrBy(args[1].clone(), 1))
            },
        }
    } else {
        Ok(Command::IncrBy(args[1].clone(), 1))
    }
}

/// What `DECR` builds from its arguments.
pub open spec fn decr_spec(a: Seq<Seq<u8>>) -> Result<CommandView, Seq<char>> {
    if a.len() < 2 {
        Err("wrong number of arguments for 'decr' command"@)
    } else if a.len() >= 3 {
        match u64_of(a[2]) {
            Some(value) => {
                Ok(CommandView::MemcachedDecr {
                    key: a[1],
                    value,
                    noreply: a.len() > 3 && spells(a[3], "NOREPLY"@),
                })
            },
            None => {
                Ok(CommandView::IncrBy(a[1], -1i64))
            },
        }
    } else {
        Ok(CommandView::IncrBy(a[1], -1i64))
    }
}

pub(crate) fn build_decr(args: &Vec<Bytes>) -> (r: Result<Command, String>)
    requires
        args.len() > 0,
    ensures
        built(r) == decr_spec(contents(args@)),
{
    if args.len() < 2 {
        return Err("wrong number of arguments for 'decr' command".to_owned());
    }
    if args.len() >= 3 {
        match read_u64(args[2].as_ref()) {
            Some(value) => {
                Ok(Command::MemcachedDecr {
                    key: args[1].clone(),
                    value,
                    noreply: args.len() > 3 && spells_word(args[3].as_ref(), "NOREPLY"),
                })
            },
            None => {
                Ok(Command::IncrBy(args[1].clone(), -1i64))
            },
        }
    } else {
        Ok(Command::IncrBy(args[1].clone(), -1i64))
    }
}

/// What `INCRBY` builds from its arguments.
pub open spec fn incrby_spec(a: Seq<Seq<u8>>) -> Result<CommandView, Seq<char>> {
    if a.len() < 3 {
        Err("wrong number of arguments for 'incrby' command"@)
    } else {
        match i64_of(a[2]) {
            None => Err("value is not an integer or out of range"@),
            Some(delta) => {
                Ok(CommandView::IncrBy(a[1], delta))
            },
        }
    }
}

pub(crate) fn build_incrby(args: &Vec<Bytes>) -> (r: Result<Command, String>)
    requires
        args.len() > 0,
    ensures
        built(r) == incrby_spec(contents(args@)),
{
    if args.len() < 3 {
        return Err("wrong number of arguments for 'incrby' command".to_owned());
    }
    let delta: i64 = match read_i64(args[2].as_ref()) {
        Some(v) => v,
        None => return Err("value is not an integer or out of range".to_owned()),
    };
    Ok(Command::IncrBy(args[1].clone(), delta))
}

/// What `DECRBY` builds from its arguments.
pub open spec fn decrby_spec(a: Seq<Seq<u8>>) -> Result<CommandView, Seq<char>> {
    if a.len() < 3 {
        Err("wrong number of arguments for 'decrby' command"@)
    } else {
        match i64_of(a[2]) {
            None => Err("value is not an integer or out of range"@),
            Some(delta) => {
                if delta == -9223372036854775808 {
                    Ok(CommandView::IncrBy(a[1], delta))
                } else {
                    Ok(CommandView::IncrBy(a[1], (-delta) as i64))
                }
            },
        }
    }
}

pub(crate) fn build_decrby(args: &Vec<Bytes>) -> (r: Result<Command, String>)
    requires
        args.len() > 0,
    ensures
        built(r) == decrby_spec(contents(args@)),
{
    if args.len() < 3 {
        return Err("wrong number of arguments for 'decrby' command".to_owned());
    }
    let delta: i64 = match read_i64(args[2].as_ref()) {
        Some(v) => v,
        None => return Err("value is not an integer or out of range".to_owned()),
    };
    if delta == -9223372036854775808 {
        Ok(Command::IncrBy(args[1].clone(), delta))
    } else {
        Ok(Command::IncrBy(args[1].clone(), -delta))
    }
}

/// What `EXPIRE` builds from its arguments.
pub open spec fn expire_spec(a: Seq<Seq<u8>>) -> Result<CommandView, Seq<char>> {
    if a.len() < 3 {
        Err("wrong number of arguments for 'expire' command"@)
    } else {
        match u64_of(a[2]) {
            None => Err("value is not an integer or out of range"@),
            Some(secs) => {
                Ok(CommandView::Expire(a[1], Duration::of_secs(secs)))
            },
        }
    }
}

pub(crate) fn build_expire(args: &Vec<Bytes>) -> (r: Result<Command, String>)
    requires
        args.len() > 0,
    ensures
        built(r) == expire_spec(contents(args@)),
{
    if args.len() < 3 {
        return Err("wrong number of arguments for 'expire' command".to_owned());
    }
    let secs: u64 = match read_u64(args[2].as_ref()) {
        Some(v) => v,
        None => return Err("value is not an integer or out of range".to_owned()),
    };
    Ok(Command::Expire(args[1].clone(), Duration::from_secs(secs)))
}

/// What `PEXPIRE` builds from its arguments.
pub open spec fn pexpire_spec(a: Seq<Seq<u8>>) -> Result<CommandView, Seq<char>> {
    if a.len() < 3 {
        Err("wrong number of arguments for 'pexpire' command"@)
    } else {
        match u64_of(a[2]) {
            None => Err("value is not an integer or out of range"@),
            Some(ms) => {
                Ok(CommandView::Expire(a[1], Duration::of_millis(ms)))
            },
        }
    }
}

pub(crate) fn build_pexpire(args: &Vec<Bytes>) -> (r: Result<Command, String>)
    requires
        args.len() > 0,
    ensures
        built(r) == pexpire_spec(contents(args@)),
{
    if args.len() < 3 {
        return Err("wrong number of arguments for 'pexpire' command".to_owned());
    }
    let ms: u64 = match read_u64(args[2].as_ref()) {
        Some(v) => v,
        None => return Err("value is not an integer or out of range".to_owned()),
    };
    Ok(Command::Expire(args[1].clone(), Duration::from_millis(ms)))
}

/// What `PERSIST` builds from its arguments.
pub open spec fn persist_spec(a: Seq<Seq<u8>>) -> Result<CommandView, Seq<char>> {
    if a.len() < 2 {
        Err("wrong number of arguments for 'persist' command"@)
    } else {
        Ok(CommandView::Persist(a[1]))
    }
}

pub(crate) fn build_persist(args: &Vec<Bytes>) -> (r: Result<Command, String>)
    requires
        args.len() > 0,
    ensures
        built(r) == persist_spec(contents(args@)),
{
    if args.len() < 2 {
        return Err("wrong number of arguments for 'persist' command".to_owned());
    }
    Ok(Command::Persist(args[1].clone()))
}

/// What `TTL` builds from its arguments.
pub open spec fn ttl_spec(a: Seq<Seq<u8>>) -> Result<CommandView, Seq<char>> {
    if a.len() < 2 {
        Err("wrong number of arguments for 'ttl' command"@)
    } else {
        Ok(CommandView::Ttl(a[1], false))
    }
}

pub(crate) fn build_ttl(args: &Vec<Bytes>) -> (r: Result<Command, String>)
    requires
        args.len() > 0,
    ensures
        built(r) == ttl_spec(contents(args@)),
{
    if args.len() < 2 {
        return Err("wrong number of arguments for 'ttl' command".to_owned());
    }
    Ok(Command::Ttl(args[1].clone(), false))
}

/// What `PTTL` builds from its arguments.
pub open spec fn pttl_spec(a: Seq<Seq<u8>>) -> Result<CommandView, Seq<char>> {
    if a.len() < 2 {
        Err("wrong number of arguments for 'pttl' command"@)
    } else {
        Ok(CommandView::Ttl(a[1], true))
    }
}

pub(crate) fn build_pttl(args: &Vec<Bytes>) -> (r: Result<Command, String>)
    requires
        args.len() > 0,
    ensures
        built(r) == pttl_spec(contents(args@)),
{
    if args.len() < 2 {
        return Err("wrong number of arguments for 'pttl' command".to_owned());
    }
    Ok(Command::Ttl(args[1].clone(), true))
}

/// What `PING` builds from its arguments.
pub open spec fn ping_spec(a: Seq<Seq<u8>>) -> Result<CommandView, Seq<char>> {
    if a.len() > 1 {
        Ok(CommandView::Ping(Some(a[1])))
    } else {
        Ok(CommandView::Ping(None))
    }
}

pub(crate) fn build_ping(args: &Vec<Bytes>) -> (r: Result<Command, String>)
    requires
        args.len() > 0,
    ensures
        built(r) == ping_spec(contents(args@)),
{
    if args.len() > 1 {
        Ok(Command::Ping(Some(args[1].clone())))
    } else {
        Ok(Command::Ping(None))
    }
}

/// What `INCRBYFLOAT` builds from its arguments.
pub open spec fn incrbyfloat_spec(
    a: Seq<Seq<u8>>,
    env: &ParseEnv,
) -> Result<CommandView, Seq<char>> {
    if a.len() != 3 {
        Err("wrong number of arguments for 'incrbyfloat' command"@)
    } else {
        match redis_double_of(env, a[2]) {
            None => Err("value is not a valid float"@),
            Some(increment) => {
                if increment.nan() || increment.infinite() {
                    Err("value is NaN or Infinity"@)
                } else {
                    Ok(CommandView::Incrbyfloat { key: a[1], increment })
                }
            },
        }
    }
}

pub(crate) fn build_incrbyfloat(args: &Vec<Bytes>, env: &ParseEnv) -> (r: Result<Command, String>)
    requires
        args.len() > 0,
    ensures
        built(r) == incrbyfloat_spec(contents(args@), env),
{
    if args.len() != 3 {
        return Err("wrong number of arguments for 'incrbyfloat' command".to_owned());
    }
    let increment: Double = match redis_double(env, args[2].as_ref()) {
        Some(v) => v,
        None => return Err("value is not a valid float".to_owned()),
    };
    if increment.is_nan() || increment.is_infinite() {
        return Err("value is NaN or Infinity".to_owned());
    }
    Ok(Command::Incrbyfloat { key: args[1].clone(), increment })
}

/// What `SETRANGE` builds from its arguments.
pub open spec fn setrange_spec(a: Seq<Seq<u8>>) -> Result<CommandView, Seq<char>> {
    if a.len() != 4 {
        Err("wrong number of arguments for 'setrange' command"@)
    } else {
        match usize_of(a[2]) {
            None => Err("value is not an integer or out of range"@),
            Some(offset) => {
                Ok(CommandView::Setrange { key: a[1], offset, value: a[3] })
            },
        }
    }
}

pub(crate) fn build_setrange(args: &Vec<Bytes>) -> (r: Result<Command, String>)
    requires
        args.len() > 0,
    ensures
        built(r) == setrange_spec(contents(args@)),
{
    if args.len() != 4 {
        return Err("wrong number of arguments for 'setrange' command".to_owned());
    }
    let offset: usize = match read_usize(args[2].as_ref()) {
        Some(v) => v,
        None => return Err("value is not an integer or out of range".to_owned()),
    };
    Ok(Command::Setrange { key: args[1].clone(), offset, value: args[3].clone() })
}

/// What `GETRANGE` builds from its arguments.
pub open spec fn getrange_spec(a: Seq<Seq<u8>>) -> Result<CommandView, Seq<char>> {
    if a.len() != 4 {
        Err("wrong number of arguments for 'getrange' command"@)
    } else {
        match i64_of(a[2]) {
            None => Err("value is not an integer or out of range"@),
            Some(start) => {
                match i64_of(a[3]) {
                    None => Err("value is not an integer or out of range"@),
                    Some(end) => {
                        Ok(CommandView::Getrange { key: a[1], start, end })
                    },
                }
            },
        }
    }
}

pub(crate) fn build_getrange(args: &Vec<Bytes>) -> (r: Result<Command, String>)
    requires
        args.len() > 0,
    ensures
        built(r) == getrange_spec(contents(args@)),
{
    if args.len() != 4 {
        return Err("wrong number of arguments for 'getrange' command".to_owned());
    }
    let start: i64 = match read_i64(args[2].as_ref()) {
        Some(v) => v,
        None => return Err("value is not an integer or out of range".to_owned()),
    };
    let end: i64 = match read_i64(args[3].as_ref()) {
        Some(v) => v,
        None => return Err("value is not an integer or out of range".to_owned()),
    };
    Ok(Command::Getrange { key: args[1].clone(), start, end })
}

/// What `SUBSTR` builds from its arguments.
pub open spec fn substr_spec(a: Seq<Seq<u8>>) -> Result<CommandView, Seq<char>> {
    if a.len() != 4 {
        Err("wrong number of arguments for 'substr' command"@)
    } else {
        match i64_of(a[2]) {
            None => Err("value is not an integer or out of range"@),
            Some(start) => {
                match i64_of(a[3]) {
                    None => Err("value is not an integer or out of range"@),
                    Some(end) => {
                        Ok(CommandView::Getrange { key: a[1], start, end })
                    },
                }
            },
        }
    }
}

pub(crate) fn build_substr(args: &Vec<Bytes>) -> (r: Result<Command, String>)
    requires
        args.len() > 0,
    ensures
        built(r) == substr_spec(contents(args@)),
{
    if args.len() != 4 {
        return Err("wrong number of arguments for 'substr' command".to_owned());
    }
    let start: i64 = match read_i64(args[2].as_ref()) {
        Some(v) => v,
        None => return Err("value is not an integer or out of range".to_owned()),
    };
    let end: i64 = match read_i64(args[3].as_ref()) {
        Some(v) => v,
        None => return Err("value is not an integer or out of range".to_owned()),
    };
    Ok(Command::Getrange { key: args[1].clone(), start, end })
}

/// The commands on strings, counters and expiry: the command that `name` stands for among them, if it is one.
pub open spec fn strings_command_spec(
    name: Seq<char>,
    a: Seq<Seq<u8>>,
    env: &ParseEnv,
) -> Option<Result<CommandView, Seq<char>>> {
    if name == "GET"@ {
        Some(get_spec(a))
    } else if name == "GETEX"@ {
        Some(getex_spec(a, env))
    } else if name == "SET"@ || name == "PUT"@ {
        Some(set_spec(a, env))
    } else if name == "MGET"@ {
        Some(mget_spec(a))
    } else if name == "MSET"@ {
        Some(mset_spec(a))
    } else if name == "MSETEX"@ {
        Some(msetex_spec(a, env))
    } else if name == "LCS"@ {
        Some(lcs_spec(a))
    } else if name == "DEL"@ || name == "UNLINK"@ {
        Some(del_spec(a))
    } else if name == "DELETE"@ {
        Some(delete_spec(a))
    } else if name == "READONLY"@ {
        Some(readonly_spec(a))
    } else if name == "READWRITE"@ {
        Some(readwrite_spec(a))
    } else if name == "WAIT"@ {
        Some(wait_spec(a))
    } else if name == "WAITAOF"@ {
        Some(waitaof_spec(a))
    } else if name == "OBJECT"@ {
        Some(object_spec(a))
    } else if name == "EXISTS"@ {
        Some(exists_spec(a))
    } else if name == "INCR"@ {
        Some(incr_spec(a))
    } else if name == "DECR"@ {
        Some(decr_spec(a))
    } else if name == "INCRBY"@ {
        Some(incrby_spec(a))
    } else if name == "DECRBY"@ {
        Some(decrby_spec(a))
    } else if name == "EXPIRE"@ {
        Some(expire_spec(a))
    } else if name == "PEXPIRE"@ {
        Some(pexpire_spec(a))
    } else if name == "PERSIST"@ {
        Some(persist_spec(a))
    } else if name == "TTL"@ {
        Some(ttl_spec(a))
    } else if name == "PTTL"@ {
        Some(pttl_spec(a))
    } else if name == "PING"@ {
        Some(ping_spec(a))
    } else if name == "INCRBYFLOAT"@ {
        Some(incrbyfloat_spec(a, env))
    } else if name == "SETRANGE"@ {
        Some(setrange_spec(a))
    } else if name == "GETRANGE"@ {
        Some(getrange_spec(a))
    } else if name == "SUBSTR"@ {
        Some(substr_spec(a))
    } else {
        None
    }
}

pub(crate) fn strings_command(
    name: &str,
    args: &Vec<Bytes>,
    env: &ParseEnv,
) -> (r: Option<Result<Command, String>>)
    requires
        args.len() > 0,
    ensures
        built_opt(r) == strings_command_spec(name@, contents(args@), env),
{
    if same_text(name, "GET") {
        Some(build_get(args))
    } else if same_text(name, "GETEX") {
        Some(build_getex(args, env))
    } else if same_text(name, "SET") || same_text(name, "PUT") {
        Some(build_set(args, env))
    } else if same_text(name, "MGET") {
        Some(build_mget(args))
    } else if same_text(name, "MSET") {
        Some(build_mset(args))
    } else if same_text(name, "MSETEX") {
        Some(build_msetex(args, env))
    } else if same_text(name, "LCS") {
        Some(build_lcs(args))
    } else if same_text(name, "DEL") || same_text(name, "UNLINK") {
        Some(build_del(args))
    } else if same_text(name, "DELETE") {
        Some(build_delete(args))
    } else if same_text(name, "READONLY") {
        Some(build_readonly(args))
    } else if same_text(name, "READWRITE") {
        Some(build_readwrite(args))
    } else if same_text(name, "WAIT") {
        Some(build_wait(args))
    } else if same_text(name, "WAITAOF") {
        Some(build_waitaof(args))
    } else if same_text(name, "OBJECT") {
        Some(build_object(args))
    } else if same_text(name, "EXISTS") {
        Some(build_exists(args))
    } else if same_text(name, "INCR") {
        Some(build_incr(args))
    } else if same_text(name, "DECR") {
        Some(build_decr(args))
    } else if same_text(name, "INCRBY") {
        Some(build_incrby(args))
    } else if same_text(name, "DECRBY") {
        Some(build_decrby(args))
    } else if same_text(name, "EXPIRE") {
        Some(build_expire(args))
    } else if same_text(name, "PEXPIRE") {
        Some(build_pexpire(args))
    } else if same_text(name, "PERSIST") {
        Some(build_persist(args))
    } else if same_text(name, "TTL") {
        Some(build_ttl(args))
    } else if same_text(name, "PTTL") {
        Some(build_pttl(args))
    } else if same_text(name, "PING") {
        Some(build_ping(args))
    } else if same_text(name, "INCRBYFLOAT") {
        Some(build_incrbyfloat(args, env))
    } else if same_text(name, "SETRANGE") {
        Some(build_setrange(args))
    } else if same_text(name, "GETRANGE") {
        Some(build_getrange(args))
    } else if same_text(name, "SUBSTR") {
        Some(build_substr(args))
    } else {
        None
    }
}

} // verus!
