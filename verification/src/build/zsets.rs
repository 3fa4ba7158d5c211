//! Sorted sets.
use bytes::Bytes;
use vstd::prelude::*;

use crate::command::{Command, CommandView, built, built_opt};
use crate::lists::{ScoreList, content_opt, contents, keys_between, keys_from, listed_scores};
use crate::numbers::{i64_of, read_i64, read_usize, usize_of};
use crate::operands::{Aggregate, Double, LexBound, ZAddFlags, ZRangeOpts, ZRangeOptsView};
use crate::readings::{
    ParseEnv, checked_timeout, double_of, lex_bound_spec, parse_lex_bound, parse_score_bound,
    redis_double, redis_double_of, score_bound, timeout_spec,
};
use crate::text::{same_text, spells, spells_word, upper, upper_word};
use super::walks::{read_walk_options, walk_options};

verus! {

/// The way of combining scores that an upper-case word names.
pub open spec fn aggregate_of(word: Seq<char>) -> Option<Aggregate> {
    if word == "SUM"@ {
        Some(Aggregate::Sum)
    } else if word == "MIN"@ {
        Some(Aggregate::Min)
    } else if word == "MAX"@ {
        Some(Aggregate::Max)
    } else if word == "COUNT"@ {
        Some(Aggregate::Count)
    } else {
        None
    }
}

fn read_aggregate(word: &str) -> (r: Option<Aggregate>)
    ensures
        r == aggregate_of(word@),
{
    if same_text(word, "SUM") {
        Some(Aggregate::Sum)
    } else if same_text(word, "MIN") {
        Some(Aggregate::Min)
    } else if same_text(word, "MAX") {
        Some(Aggregate::Max)
    } else if same_text(word, "COUNT") {
        Some(Aggregate::Count)
    } else {
        None
    }
}

/// What `ZADD` makes of its arguments from `i` on, given what came before them.
pub open spec fn zadd_options(a: Seq<Seq<u8>>, flags: ZAddFlags, i: int) -> (ZAddFlags, int)
    decreases a.len() - i,
{
    if i >= a.len() {
        (flags, i)
    } else {
        let opt = upper_word(a[i]);
        if opt == "NX"@ {
            let flags = ZAddFlags { nx: true, ..flags };
            let i: int = i + 1;
            zadd_options(a, flags, i)
        } else if opt == "XX"@ {
            let flags = ZAddFlags { xx: true, ..flags };
            let i: int = i + 1;
            zadd_options(a, flags, i)
        } else if opt == "GT"@ {
            let flags = ZAddFlags { gt: true, ..flags };
            let i: int = i + 1;
            zadd_options(a, flags, i)
        } else if opt == "LT"@ {
            let flags = ZAddFlags { lt: true, ..flags };
            let i: int = i + 1;
            zadd_options(a, flags, i)
        } else if opt == "CH"@ {
            let flags = ZAddFlags { ch: true, ..flags };
            let i: int = i + 1;
            zadd_options(a, flags, i)
        } else if opt == "INCR"@ {
            let flags = ZAddFlags { incr: true, ..flags };
            let i: int = i + 1;
            zadd_options(a, flags, i)
        } else {
            (flags, i)
        }
    }
}

/// What `ZADD` makes of its arguments from `i` on, given what came before them.
pub open spec fn zadd_elements(
    a: Seq<Seq<u8>>,
    env: &ParseEnv,
    i: int,
    elements: Seq<(Double, Seq<u8>)>,
) -> Result<Seq<(Double, Seq<u8>)>, Seq<char>>
    decreases a.len() - i,
{
    if a.len() - i <= 1 {
        Ok(elements)
    } else {
        match redis_double_of(env, a[i]) {
            None => Err("value is not a valid float"@),
            Some(score) => {
                let elements = elements.push((score, a[i + 1]));
                let i: int = i + 2;
                zadd_elements(a, env, i, elements)
            },
        }
    }
}

/// What `ZADD` builds from its arguments.
pub open spec fn zadd_spec(a: Seq<Seq<u8>>, env: &ParseEnv) -> Result<CommandView, Seq<char>> {
    if a.len() < 4 {
        Err("wrong number of arguments for 'zadd' command"@)
    } else {
        let flags = ZAddFlags::none();
        let i: int = 2;
        let (flags, i) = zadd_options(a, flags, i);
        if flags.nx && flags.xx {
            Err("XX and NX options at the same time are not compatible"@)
        } else if flags.gt && flags.lt {
            Err("GT and LT options at the same time are not compatible"@)
        } else if flags.nx && (flags.gt || flags.lt) {
            Err("NX and GT, LT options are not compatible"@)
        } else if i >= a.len() || (a.len() - i) % 2 != 0 {
            Err("syntax error"@)
        } else if flags.incr && a.len() - i != 2 {
            Err("INCR option supports a single increment-element pair"@)
        } else {
            let elements = Seq::<(Double, Seq<u8>)>::empty();
            match zadd_elements(a, env, i, elements) {
                Err(e) => Err(e),
                Ok(elements) => {
                    Ok(CommandView::Zadd { key: a[1], elements, flags })
                },
            }
        }
    }
}

#[verifier::loop_isolation(false)]
pub(crate) fn build_zadd(args: &Vec<Bytes>, env: &ParseEnv) -> (r: Result<Command, String>)
    requires
        args.len() > 0,
    ensures
        built(r) == zadd_spec(contents(args@), env),
{
    if args.len() < 4 {
        return Err("wrong number of arguments for 'zadd' command".to_owned());
    }
    let mut flags: ZAddFlags = ZAddFlags::default();
    let mut i: usize = 2;
    let ghost goal_zadd_options = zadd_options(contents(args@), flags, i as int);
    while i < args.len()
        invariant
            i <= args.len(),
            zadd_options(contents(args@), flags, i as int) == goal_zadd_options,
        decreases args.len() - i,
    {
        let opt: String = upper(&args[i]);
        if same_text(&opt, "NX") {
            flags.nx = true;
            i = i + 1;
        } else if same_text(&opt, "XX") {
            flags.xx = true;
            i = i + 1;
        } else if same_text(&opt, "GT") {
            flags.gt = true;
            i = i + 1;
        } else if same_text(&opt, "LT") {
            flags.lt = true;
            i = i + 1;
        } else if same_text(&opt, "CH") {
            flags.ch = true;
            i = i + 1;
        } else if same_text(&opt, "INCR") {
            flags.incr = true;
            i = i + 1;
        } else {
            break;
        }
    }
    if flags.nx && flags.xx {
        return Err("XX and NX options at the same time are not compatible".to_owned());
    }
    if flags.gt && flags.lt {
        return Err("GT and LT options at the same time are not compatible".to_owned());
    }
    if flags.nx && (flags.gt || flags.lt) {
        return Err("NX and GT, LT options are not compatible".to_owned());
    }
    if i >= args.len() || (args.len() - i) % 2 != 0 {
        return Err("syntax error".to_owned());
    }
    if flags.incr && args.len() - i != 2 {
        return Err("INCR option supports a single increment-element pair".to_owned());
    }
    let mut elements: ScoreList = ScoreList::new();
    let ghost goal_zadd_elements = zadd_elements(
        contents(args@),
        env,
        i as int,
        listed_scores(elements),
    );
    while args.len() - i > 1
        invariant
            i <= args.len(),
            zadd_elements(
                contents(args@),
                env,
                i as int,
                listed_scores(elements),
            ) == goal_zadd_elements,
        decreases args.len() - i,
    {
        let score: Double = match redis_double(env, args[i].as_ref()) {
            Some(v) => v,
            None => return Err("value is not a valid float".to_owned()),
        };
        elements.push(score, args[i + 1].clone());
        i = i + 2;
    }
    Ok(Command::Zadd { key: args[1].clone(), elements, flags })
}

/// What `ZREM` builds from its arguments.
pub open spec fn zrem_spec(a: Seq<Seq<u8>>) -> Result<CommandView, Seq<char>> {
    if a.len() < 3 {
        Err("wrong number of arguments for 'zrem' command"@)
    } else {
        Ok(CommandView::Zrem { key: a[1], members: a.skip(2) })
    }
}

pub(crate) fn build_zrem(args: &Vec<Bytes>) -> (r: Result<Command, String>)
    requires
        args.len() > 0,
    ensures
        built(r) == zrem_spec(contents(args@)),
{
    if args.len() < 3 {
        return Err("wrong number of arguments for 'zrem' command".to_owned());
    }
    Ok(Command::Zrem { key: args[1].clone(), members: keys_from(args, 2) })
}

/// What `ZSCORE` builds from its arguments.
pub open spec fn zscore_spec(a: Seq<Seq<u8>>) -> Result<CommandView, Seq<char>> {
    if a.len() != 3 {
        Err("wrong number of arguments for 'zscore' command"@)
    } else {
        Ok(CommandView::Zscore { key: a[1], member: a[2] })
    }
}

pub(crate) fn build_zscore(args: &Vec<Bytes>) -> (r: Result<Command, String>)
    requires
        args.len() > 0,
    ensures
        built(r) == zscore_spec(contents(args@)),
{
    if args.len() != 3 {
        return Err("wrong number of arguments for 'zscore' command".to_owned());
    }
    Ok(Command::Zscore { key: args[1].clone(), member: args[2].clone() })
}

/// What `ZCARD` builds from its arguments.
pub open spec fn zcard_spec(a: Seq<Seq<u8>>) -> Result<CommandView, Seq<char>> {
    if a.len() != 2 {
        Err("wrong number of arguments for 'zcard' command"@)
    } else {
        Ok(CommandView::Zcard(a[1]))
    }
}

pub(crate) fn build_zcard(args: &Vec<Bytes>) -> (r: Result<Command, String>)
    requires
        args.len() > 0,
    ensures
        built(r) == zcard_spec(contents(args@)),
{
    if args.len() != 2 {
        return Err("wrong number of arguments for 'zcard' command".to_owned());
    }
    Ok(Command::Zcard(args[1].clone()))
}

/// What `ZRANK` builds from its arguments.
pub open spec fn zrank_spec(a: Seq<Seq<u8>>) -> Result<CommandView, Seq<char>> {
    if a.len() != 3 && a.len() != 4 {
        Err("wrong number of arguments for 'zrank' command"@)
    } else if a.len() == 4 {
        if !spells(a[3], "WITHSCORE"@) {
            Err("syntax error"@)
        } else {
            Ok(CommandView::Zrank { key: a[1], member: a[2], with_score: true })
        }
    } else {
        Ok(CommandView::Zrank { key: a[1], member: a[2], with_score: false })
    }
}

pub(crate) fn build_zrank(args: &Vec<Bytes>) -> (r: Result<Command, String>)
    requires
        args.len() > 0,
    ensures
        built(r) == zrank_spec(contents(args@)),
{
    if args.len() != 3 && args.len() != 4 {
        return Err("wrong number of arguments for 'zrank' command".to_owned());
    }
    if args.len() == 4 {
        if !spells_word(args[3].as_ref(), "WITHSCORE") {
            return Err("syntax error".to_owned());
        }
        Ok(Command::Zrank { key: args[1].clone(), member: args[2].clone(), with_score: true })
    } else {
        Ok(Command::Zrank { key: args[1].clone(), member: args[2].clone(), with_score: false })
    }
}

/// What `ZREVRANK` builds from its arguments.
pub open spec fn zrevrank_spec(a: Seq<Seq<u8>>) -> Result<CommandView, Seq<char>> {
    if a.len() != 3 && a.len() != 4 {
        Err("wrong number of arguments for 'zrevrank' command"@)
    } else if a.len() == 4 {
        if !spells(a[3], "WITHSCORE"@) {
            Err("syntax error"@)
        } else {
            Ok(CommandView::Zrevrank { key: a[1], member: a[2], with_score: true })
        }
    } else {
        Ok(CommandView::Zrevrank { key: a[1], member: a[2], with_score: false })
    }
}

pub(crate) fn build_zrevrank(args: &Vec<Bytes>) -> (r: Result<Command, String>)
    requires
        args.len() > 0,
    ensures
        built(r) == zrevrank_spec(contents(args@)),
{
    if args.len() != 3 && args.len() != 4 {
        return Err("wrong number of arguments for 'zrevrank' command".to_owned());
    }
    if args.len() == 4 {
        if !spells_word(args[3].as_ref(), "WITHSCORE") {
            return Err("syntax error".to_owned());
        }
        Ok(Command::Zrevrank { key: args[1].clone(), member: args[2].clone(), with_score: true })
    } else {
        Ok(Command::Zrevrank { key: args[1].clone(), member: args[2].clone(), with_score: false })
    }
}

/// What `ZCOUNT` builds from its arguments.
pub open spec fn zcount_spec(a: Seq<Seq<u8>>, env: &ParseEnv) -> Result<CommandView, Seq<char>> {
    if a.len() != 4 {
        Err("wrong number of arguments for 'zcount' command"@)
    } else {
        match score_bound(env, a[2]) {
            Err(e) => Err(e),
            Ok(lo) => {
                match score_bound(env, a[3]) {
                    Err(e) => Err(e),
                    Ok(hi) => {
                        Ok(CommandView::Zcount {
                            key: a[1],
                            min: lo.0,
                            min_inc: lo.1,
                            max: hi.0,
                            max_inc: hi.1,
                        })
                    },
                }
            },
        }
    }
}

pub(crate) fn build_zcount(args: &Vec<Bytes>, env: &ParseEnv) -> (r: Result<Command, String>)
    requires
        args.len() > 0,
    ensures
        built(r) == zcount_spec(contents(args@), env),
{
    if args.len() != 4 {
        return Err("wrong number of arguments for 'zcount' command".to_owned());
    }
    let lo: (Double, bool) = match parse_score_bound(args[2].as_ref(), env) {
        Ok(v) => v,
        Err(e) => return Err(e),
    };
    let hi: (Double, bool) = match parse_score_bound(args[3].as_ref(), env) {
        Ok(v) => v,
        Err(e) => return Err(e),
    };
    Ok(Command::Zcount { key: args[1].clone(), min: lo.0, min_inc: lo.1, max: hi.0, max_inc: hi.1 })
}

/// What `ZINCRBY` builds from its arguments.
pub open spec fn zincrby_spec(a: Seq<Seq<u8>>, env: &ParseEnv) -> Result<CommandView, Seq<char>> {
    if a.len() != 4 {
        Err("wrong number of arguments for 'zincrby' command"@)
    } else {
        match redis_double_of(env, a[2]) {
            None => Err("value is not a valid float"@),
            Some(delta) => {
                Ok(CommandView::Zincrby { key: a[1], delta, member: a[3] })
            },
        }
    }
}

pub(crate) fn build_zincrby(args: &Vec<Bytes>, env: &ParseEnv) -> (r: Result<Command, String>)
    requires
        args.len() > 0,
    ensures
        built(r) == zincrby_spec(contents(args@), env),
{
    if args.len() != 4 {
        return Err("wrong number of arguments for 'zincrby' command".to_owned());
    }
    let delta: Double = match redis_double(env, args[2].as_ref()) {
        Some(v) => v,
        None => return Err("value is not a valid float".to_owned()),
    };
    Ok(Command::Zincrby { key: args[1].clone(), delta, member: args[3].clone() })
}

/// What `ZRANGE` makes of its arguments from `i` on, given what came before them.
pub open spec fn zrange_options(
    a: Seq<Seq<u8>>,
    by_score: bool,
    by_lex: bool,
    rev: bool,
    with_scores: bool,
    has_limit: bool,
    offset: usize,
    count: Option<usize>,
    i: int,
) -> Result<(bool, bool, bool, bool, bool, usize, Option<usize>), Seq<char>>
    decreases a.len() - i,
{
    if i >= a.len() {
        Ok((by_score, by_lex, rev, with_scores, has_limit, offset, count))
    } else {
        let opt = upper_word(a[i]);
        if opt == "BYSCORE"@ {
            let by_score = true;
            let i: int = i + 1;
            zrange_options(a, by_score, by_lex, rev, with_scores, has_limit, offset, count, i)
        } else if opt == "BYLEX"@ {
            let by_lex = true;
            let i: int = i + 1;
            zrange_options(a, by_score, by_lex, rev, with_scores, has_limit, offset, count, i)
        } else if opt == "REV"@ {
            let rev = true;
            let i: int = i + 1;
            zrange_options(a, by_score, by_lex, rev, with_scores, has_limit, offset, count, i)
        } else if opt == "WITHSCORES"@ {
            let with_scores = true;
            let i: int = i + 1;
            zrange_options(a, by_score, by_lex, rev, with_scores, has_limit, offset, count, i)
        } else if opt == "LIMIT"@ {
            let has_limit = true;
            if a.len() - i <= 2 {
                Err("syntax error"@)
            } else {
                match i64_of(a[i + 1]) {
                    None => Err("value is not an integer or out of range"@),
                    Some(off) => {
                        match i64_of(a[i + 2]) {
                            None => Err("value is not an integer or out of range"@),
                            Some(c) => {
                                let offset: usize = if off < 0 { usize::MAX } else { off as usize };
                                let count = if c < 0 { None } else { Some(c as usize) };
                                let i: int = i + 3;
                                zrange_options(
                                    a,
                                    by_score,
                                    by_lex,
                                    rev,
                                    with_scores,
                                    has_limit,
                                    offset,
                                    count,
                                    i,
                                )
                            },
                        }
                    },
                }
            }
        } else {
            Err("syntax error"@)
        }
    }
}

/// What `ZRANGE` builds from its arguments.
pub open spec fn zrange_spec(a: Seq<Seq<u8>>, env: &ParseEnv) -> Result<CommandView, Seq<char>> {
    if a.len() < 4 {
        Err("wrong number of arguments for 'zrange' command"@)
    } else {
        let by_score = false;
        let by_lex = false;
        let rev = false;
        let with_scores = false;
        let has_limit = false;
        let offset: usize = 0;
        let count: Option<usize> = None;
        let i: int = 4;
        match zrange_options(a, by_score, by_lex, rev, with_scores, has_limit, offset, count, i) {
            Err(e) => Err(e),
            Ok((by_score, by_lex, rev, with_scores, has_limit, offset, count)) => {
                if by_score && by_lex {
                    Err("syntax error"@)
                } else if has_limit && !by_score && !by_lex {
                    Err("syntax error, LIMIT is only supported in combination with either BYSCORE or BYLEX"@)
                } else if with_scores && by_lex {
                    Err("syntax error, WITHSCORES not supported in combination with BYLEX"@)
                } else {
                    let min_at: int = if rev { 3 } else { 2 };
                    let max_at: int = if rev { 2 } else { 3 };
                    if by_score {
                        match score_bound(env, a[min_at]) {
                            Err(e) => Err(e),
                            Ok(lo) => {
                                match score_bound(env, a[max_at]) {
                                    Err(e) => Err(e),
                                    Ok(hi) => {
                                        Ok(CommandView::Zrange {
                                            key: a[1],
                                            opts: ZRangeOptsView {
                                                by_score,
                                                by_lex,
                                                rev,
                                                with_scores,
                                                offset,
                                                count,
                                                min_score: lo.0,
                                                min_inc: lo.1,
                                                max_score: hi.0,
                                                max_inc: hi.1,
                                                ..ZRangeOpts::plain()
                                            },
                                        })
                                    },
                                }
                            },
                        }
                    } else if by_lex {
                        match lex_bound_spec(a[min_at]) {
                            Err(e) => Err(e),
                            Ok(lo) => {
                                match lex_bound_spec(a[max_at]) {
                                    Err(e) => Err(e),
                                    Ok(hi) => {
                                        Ok(CommandView::Zrange {
                                            key: a[1],
                                            opts: ZRangeOptsView {
                                                by_score,
                                                by_lex,
                                                rev,
                                                with_scores,
                                                offset,
                                                count,
                                                min_lex: lo,
                                                max_lex: hi,
                                                ..ZRangeOpts::plain()
                                            },
                                        })
                                    },
                                }
                            },
                        }
                    } else {
                        match i64_of(a[2]) {
                            None => Err("value is not an integer or out of range"@),
                            Some(start) => {
                                match i64_of(a[3]) {
                                    None => Err("value is not an integer or out of range"@),
                                    Some(stop) => {
                                        Ok(CommandView::Zrange {
                                            key: a[1],
                                            opts: ZRangeOptsView {
                                                by_score,
                                                by_lex,
                                                rev,
                                                with_scores,
                                                offset,
                                                count,
                                                start,
                                                stop,
                                                ..ZRangeOpts::plain()
                                            },
                                        })
                                    },
                                }
                            },
                        }
                    }
                }
            },
        }
    }
}

#[verifier::loop_isolation(false)]
pub(crate) fn build_zrange(args: &Vec<Bytes>, env: &ParseEnv) -> (r: Result<Command, String>)
    requires
        args.len() > 0,
    ensures
        built(r) == zrange_spec(contents(args@), env),
{
    if args.len() < 4 {
        return Err("wrong number of arguments for 'zrange' command".to_owned());
    }
    let mut by_score: bool = false;
    let mut by_lex: bool = false;
    let mut rev: bool = false;
    let mut with_scores: bool = false;
    let mut has_limit: bool = false;
    let mut offset: usize = 0;
    let mut count: Option<usize> = None;
    let mut i: usize = 4;
    let ghost goal_zrange_options = zrange_options(
        contents(args@),
        by_score,
        by_lex,
        rev,
        with_scores,
        has_limit,
        offset,
        count,
        i as int,
    );
    while i < args.len()
        invariant
            i <= args.len(),
            zrange_options(
                contents(args@),
                by_score,
                by_lex,
                rev,
                with_scores,
                has_limit,
                offset,
                count,
                i as int,
            ) == goal_zrange_options,
        decreases args.len() - i,
    {
        let opt: String = upper(&args[i]);
        if same_text(&opt, "BYSCORE") {
            by_score = true;
            i = i + 1;
        } else if same_text(&opt, "BYLEX") {
            by_lex = true;
            i = i + 1;
        } else if same_text(&opt, "REV") {
            rev = true;
            i = i + 1;
        } else if same_text(&opt, "WITHSCORES") {
            with_scores = true;
            i = i + 1;
        } else if same_text(&opt, "LIMIT") {
            has_limit = true;
            if args.len() - i <= 2 {
                return Err("syntax error".to_owned());
            }
            let off: i64 = match read_i64(args[i + 1].as_ref()) {
                Some(v) => v,
                None => return Err("value is not an integer or out of range".to_owned()),
            };
            let c: i64 = match read_i64(args[i + 2].as_ref()) {
                Some(v) => v,
                None => return Err("value is not an integer or out of range".to_owned()),
            };
            offset = if off < 0 { usize::MAX } else { off as usize };
            count = if c < 0 { None } else { Some(c as usize) };
            i = i + 3;
        } else {
            return Err("syntax error".to_owned());
        }
    }
    if by_score && by_lex {
        return Err("syntax error".to_owned());
    }
    if has_limit && !by_score && !by_lex {
        return Err("syntax error, LIMIT is only supported in combination with either BYSCORE or BYLEX".to_owned());
    }
    if with_scores && by_lex {
        return Err("syntax error, WITHSCORES not supported in combination with BYLEX".to_owned());
    }
    let min_at: usize = if rev { 3 } else { 2 };
    let max_at: usize = if rev { 2 } else { 3 };
    if by_score {
        let lo: (Double, bool) = match parse_score_bound(args[min_at].as_ref(), env) {
            Ok(v) => v,
            Err(e) => return Err(e),
        };
        let hi: (Double, bool) = match parse_score_bound(args[max_at].as_ref(), env) {
            Ok(v) => v,
            Err(e) => return Err(e),
        };
        Ok(Command::Zrange {
            key: args[1].clone(),
            opts: ZRangeOpts {
                by_score,
                by_lex,
                rev,
                with_scores,
                offset,
                count,
                min_score: lo.0,
                min_inc: lo.1,
                max_score: hi.0,
                max_inc: hi.1,
                ..ZRangeOpts::default()
            },
        })
    } else if by_lex {
        let lo: LexBound = match parse_lex_bound(&args[min_at]) {
            Ok(v) => v,
            Err(e) => return Err(e),
        };
        let hi: LexBound = match parse_lex_bound(&args[max_at]) {
            Ok(v) => v,
            Err(e) => return Err(e),
        };
        Ok(Command::Zrange {
            key: args[1].clone(),
            opts: ZRangeOpts {
                by_score,
                by_lex,
                rev,
                with_scores,
                offset,
                count,
                min_lex: lo,
                max_lex: hi,
                ..ZRangeOpts::default()
            },
        })
    } else {
        let start: i64 = match read_i64(args[2].as_ref()) {
            Some(v) => v,
            None => return Err("value is not an integer or out of range".to_owned()),
        };
        let stop: i64 = match read_i64(args[3].as_ref()) {
            Some(v) => v,
            None => return Err("value is not an integer or out of range".to_owned()),
        };
        Ok(Command::Zrange {
            key: args[1].clone(),
            opts: ZRangeOpts {
                by_score,
                by_lex,
                rev,
                with_scores,
                offset,
                count,
                start,
                stop,
                ..ZRangeOpts::default()
            },
        })
    }
}

/// What `ZREVRANGE` builds from its arguments.
pub open spec fn zrevrange_spec(a: Seq<Seq<u8>>) -> Result<CommandView, Seq<char>> {
    if a.len() < 4 {
        Err("wrong number of arguments for 'zrevrange' command"@)
    } else {
        match i64_of(a[2]) {
            None => Err("value is not an integer or out of range"@),
            Some(start) => {
                match i64_of(a[3]) {
                    None => Err("value is not an integer or out of range"@),
                    Some(stop) => {
                        if a.len() == 5 {
                            if !spells(a[4], "WITHSCORES"@) {
                                Err("syntax error"@)
                            } else {
                                Ok(CommandView::Zrange {
                                    key: a[1],
                                    opts: ZRangeOptsView {
                                        start,
                                        stop,
                                        rev: true,
                                        with_scores: true,
                                        ..ZRangeOpts::plain()
                                    },
                                })
                            }
                        } else if a.len() != 4 {
                            Err("syntax error"@)
                        } else {
                            Ok(CommandView::Zrange {
                                key: a[1],
                                opts: ZRangeOptsView {
                                    start,
                                    stop,
                                    rev: true,
                                    with_scores: false,
                                    ..ZRangeOpts::plain()
                                },
                            })
                        }
                    },
                }
            },
        }
    }
}

pub(crate) fn build_zrevrange(args: &Vec<Bytes>) -> (r: Result<Command, String>)
    requires
        args.len() > 0,
    ensures
        built(r) == zrevrange_spec(contents(args@)),
{
    if args.len() < 4 {
        return Err("wrong number of arguments for 'zrevrange' command".to_owned());
    }
    let start: i64 = match read_i64(args[2].as_ref()) {
        Some(v) => v,
        None => return Err("value is not an integer or out of range".to_owned()),
    };
    let stop: i64 = match read_i64(args[3].as_ref()) {
        Some(v) => v,
        None => return Err("value is not an integer or out of range".to_owned()),
    };
    if args.len() == 5 {
        if !spells_word(args[4].as_ref(), "WITHSCORES") {
            return Err("syntax error".to_owned());
        }
        Ok(Command::Zrange {
            key: args[1].clone(),
            opts: ZRangeOpts { start, stop, rev: true, with_scores: true, ..ZRangeOpts::default() },
        })
    } else {
        if args.len() != 4 {
            return Err("syntax error".to_owned());
        }
        Ok(Command::Zrange {
            key: args[1].clone(),
            opts: ZRangeOpts {
                start,
                stop,
                rev: true,
                with_scores: false,
                ..ZRangeOpts::default()
            },
        })
    }
}

/// What the options of a range of scores from `i` on make of those before them.
pub open spec fn score_range_options(
    a: Seq<Seq<u8>>,
    with_scores: bool,
    offset: usize,
    count: Option<usize>,
    i: int,
) -> Result<(bool, usize, Option<usize>), Seq<char>>
    decreases a.len() - i,
{
    if i >= a.len() {
        Ok((with_scores, offset, count))
    } else {
        let opt = upper_word(a[i]);
        if opt == "WITHSCORES"@ {
            let with_scores = true;
            let i: int = i + 1;
            score_range_options(a, with_scores, offset, count, i)
        } else if opt == "LIMIT"@ {
            if a.len() - i <= 2 {
                Err("syntax error"@)
            } else {
                match i64_of(a[i + 1]) {
                    None => Err("value is not an integer or out of range"@),
                    Some(off) => {
                        match i64_of(a[i + 2]) {
                            None => Err("value is not an integer or out of range"@),
                            Some(c) => {
                                let offset: usize = if off < 0 { usize::MAX } else { off as usize };
                                let count = if c < 0 { None } else { Some(c as usize) };
                                let i: int = i + 3;
                                score_range_options(a, with_scores, offset, count, i)
                            },
                        }
                    },
                }
            }
        } else {
            Err("syntax error"@)
        }
    }
}

/// Reads the options of a range of scores from `from` on.
#[verifier::loop_isolation(false)]
pub(crate) fn read_score_range_options(
    args: &Vec<Bytes>,
    from: usize,
) -> (r: Result<(bool, usize, Option<usize>), String>)
    requires
        from <= args.len(),
    ensures
        match score_range_options(contents(args@), false, 0, None, from as int) {
            Ok(x) => r matches Ok(y) && x == y,
            Err(e) => r matches Err(y) && y@ == e,
        },
{
    let mut with_scores: bool = false;
    let mut offset: usize = 0;
    let mut count: Option<usize> = None;
    let mut i: usize = from;
    let ghost goal = score_range_options(
        contents(args@),
        with_scores,
        offset,
        count,
        i as int,
    );
    while i < args.len()
        invariant
            i <= args.len(),
            score_range_options(
                contents(args@),
                with_scores,
                offset,
                count,
                i as int,
            ) == goal,
        decreases args.len() - i,
    {
        let opt: String = upper(&args[i]);
        if same_text(&opt, "WITHSCORES") {
            with_scores = true;
            i = i + 1;
        } else if same_text(&opt, "LIMIT") {
            if args.len() - i <= 2 {
                return Err("syntax error".to_owned());
            }
            let off: i64 = match read_i64(args[i + 1].as_ref()) {
                Some(v) => v,
                None => return Err("value is not an integer or out of range".to_owned()),
            };
            let c: i64 = match read_i64(args[i + 2].as_ref()) {
                Some(v) => v,
                None => return Err("value is not an integer or out of range".to_owned()),
            };
            offset = if off < 0 { usize::MAX } else { off as usize };
            count = if c < 0 { None } else { Some(c as usize) };
            i = i + 3;
        } else {
            return Err("syntax error".to_owned());
        }
    }
    Ok((with_scores, offset, count))
}

/// What `ZRANGEBYSCORE` builds from its arguments.
pub open spec fn zrangebyscore_spec(
    a: Seq<Seq<u8>>,
    env: &ParseEnv,
) -> Result<CommandView, Seq<char>> {
    if a.len() < 4 {
        Err("wrong number of arguments for 'zrangebyscore' command"@)
    } else {
        match score_bound(env, a[2]) {
            Err(e) => Err(e),
            Ok(lo) => {
                match score_bound(env, a[3]) {
                    Err(e) => Err(e),
                    Ok(hi) => {
                        let with_scores = false;
                        let offset: usize = 0;
                        let count: Option<usize> = None;
                        let i: int = 4;
                        match score_range_options(a, with_scores, offset, count, i) {
                            Err(e) => Err(e),
                            Ok((with_scores, offset, count)) => {
                                Ok(CommandView::Zrange {
                                    key: a[1],
                                    opts: ZRangeOptsView {
                                        min_score: lo.0,
                                        min_inc: lo.1,
                                        max_score: hi.0,
                                        max_inc: hi.1,
                                        by_score: true,
                                        rev: false,
                                        with_scores,
                                        offset,
                                        count,
                                        ..ZRangeOpts::plain()
                                    },
                                })
                            },
                        }
                    },
                }
            },
        }
    }
}

pub(crate) fn build_zrangebyscore(args: &Vec<Bytes>, env: &ParseEnv) -> (r: Result<Command, String>)
    requires
        args.len() > 0,
    ensures
        built(r) == zrangebyscore_spec(contents(args@), env),
{
    if args.len() < 4 {
        return Err("wrong number of arguments for 'zrangebyscore' command".to_owned());
    }
    let lo: (Double, bool) = match parse_score_bound(args[2].as_ref(), env) {
        Ok(v) => v,
        Err(e) => return Err(e),
    };
    let hi: (Double, bool) = match parse_score_bound(args[3].as_ref(), env) {
        Ok(v) => v,
        Err(e) => return Err(e),
    };
    let (with_scores, offset, count): (bool, usize, Option<usize>) = match read_score_range_options(args, 4) {
        Ok(v) => v,
        Err(e) => return Err(e),
    };
    Ok(Command::Zrange {
        key: args[1].clone(),
        opts: ZRangeOpts {
            min_score: lo.0,
            min_inc: lo.1,
            max_score: hi.0,
            max_inc: hi.1,
            by_score: true,
            rev: false,
            with_scores,
            offset,
            count,
            ..ZRangeOpts::default()
        },
    })
}

/// What `ZREVRANGEBYSCORE` builds from its arguments.
pub open spec fn zrevrangebyscore_spec(
    a: Seq<Seq<u8>>,
    env: &ParseEnv,
) -> Result<CommandView, Seq<char>> {
    if a.len() < 4 {
        Err("wrong number of arguments for 'zrevrangebyscore' command"@)
    } else {
        match score_bound(env, a[2]) {
            Err(e) => Err(e),
            Ok(hi) => {
                match score_bound(env, a[3]) {
                    Err(e) => Err(e),
                    Ok(lo) => {
                        let with_scores = false;
                        let offset: usize = 0;
                        let count: Option<usize> = None;
                        let i: int = 4;
                        match score_range_options(a, with_scores, offset, count, i) {
                            Err(e) => Err(e),
                            Ok((with_scores, offset, count)) => {
                                Ok(CommandView::Zrange {
                                    key: a[1],
                                    opts: ZRangeOptsView {
                                        min_score: lo.0,
                                        min_inc: lo.1,
                                        max_score: hi.0,
                                        max_inc: hi.1,
                                        by_score: true,
                                        rev: true,
                                        with_scores,
                                        offset,
                                        count,
                                        ..ZRangeOpts::plain()
                                    },
                                })
                            },
                        }
                    },
                }
            },
        }
    }
}

pub(crate) fn build_zrevrangebyscore(
    args: &Vec<Bytes>,
    env: &ParseEnv,
) -> (r: Result<Command, String>)
    requires
        args.len() > 0,
    ensures
        built(r) == zrevrangebyscore_spec(contents(args@), env),
{
    if args.len() < 4 {
        return Err("wrong number of arguments for 'zrevrangebyscore' command".to_owned());
    }
    let hi: (Double, bool) = match parse_score_bound(args[2].as_ref(), env) {
        Ok(v) => v,
        Err(e) => return Err(e),
    };
    let lo: (Double, bool) = match parse_score_bound(args[3].as_ref(), env) {
        Ok(v) => v,
        Err(e) => return Err(e),
    };
    let (with_scores, offset, count): (bool, usize, Option<usize>) = match read_score_range_options(args, 4) {
        Ok(v) => v,
        Err(e) => return Err(e),
    };
    Ok(Command::Zrange {
        key: args[1].clone(),
        opts: ZRangeOpts {
            min_score: lo.0,
            min_inc: lo.1,
            max_score: hi.0,
            max_inc: hi.1,
            by_score: true,
            rev: true,
            with_scores,
            offset,
            count,
            ..ZRangeOpts::default()
        },
    })
}

/// What `ZRANGEBYLEX` builds from its arguments.
pub open spec fn zrangebylex_spec(a: Seq<Seq<u8>>) -> Result<CommandView, Seq<char>> {
    if a.len() != 4 && a.len() != 7 {
        Err("wrong number of arguments for 'zrangebylex' command"@)
    } else {
        match lex_bound_spec(a[2]) {
            Err(e) => Err(e),
            Ok(lo) => {
                match lex_bound_spec(a[3]) {
                    Err(e) => Err(e),
                    Ok(hi) => {
                        if a.len() == 7 {
                            let opt = upper_word(a[4]);
                            if opt != "LIMIT"@ {
                                Err("syntax error"@)
                            } else {
                                match i64_of(a[5]) {
                                    None => Err("value is not an integer or out of range"@),
                                    Some(off) => {
                                        match i64_of(a[6]) {
                                            None => Err("value is not an integer or out of range"@),
                                            Some(c) => {
                                                let offset: usize = if off < 0 { usize::MAX } else { off as usize };
                                                let count = if c < 0 { None } else { Some(c as usize) };
                                                Ok(CommandView::Zrange {
                                                    key: a[1],
                                                    opts: ZRangeOptsView {
                                                        by_lex: true,
                                                        min_lex: lo,
                                                        max_lex: hi,
                                                        rev: false,
                                                        offset,
                                                        count,
                                                        ..ZRangeOpts::plain()
                                                    },
                                                })
                                            },
                                        }
                                    },
                                }
                            }
                        } else {
                            Ok(CommandView::Zrange {
                                key: a[1],
                                opts: ZRangeOptsView {
                                    by_lex: true,
                                    min_lex: lo,
                                    max_lex: hi,
                                    rev: false,
                                    ..ZRangeOpts::plain()
                                },
                            })
                        }
                    },
                }
            },
        }
    }
}

pub(crate) fn build_zrangebylex(args: &Vec<Bytes>) -> (r: Result<Command, String>)
    requires
        args.len() > 0,
    ensures
        built(r) == zrangebylex_spec(contents(args@)),
{
    if args.len() != 4 && args.len() != 7 {
        return Err("wrong number of arguments for 'zrangebylex' command".to_owned());
    }
    let lo: LexBound = match parse_lex_bound(&args[2]) {
        Ok(v) => v,
        Err(e) => return Err(e),
    };
    let hi: LexBound = match parse_lex_bound(&args[3]) {
        Ok(v) => v,
        Err(e) => return Err(e),
    };
    if args.len() == 7 {
        let opt: String = upper(&args[4]);
        if !same_text(&opt, "LIMIT") {
            return Err("syntax error".to_owned());
        }
        let off: i64 = match read_i64(args[5].as_ref()) {
            Some(v) => v,
            None => return Err("value is not an integer or out of range".to_owned()),
        };
        let c: i64 = match read_i64(args[6].as_ref()) {
            Some(v) => v,
            None => return Err("value is not an integer or out of range".to_owned()),
        };
        let offset: usize = if off < 0 { usize::MAX } else { off as usize };
        let count: Option<usize> = if c < 0 { None } else { Some(c as usize) };
        Ok(Command::Zrange {
            key: args[1].clone(),
            opts: ZRangeOpts {
                by_lex: true,
                min_lex: lo,
                max_lex: hi,
                rev: false,
                offset,
                count,
                ..ZRangeOpts::default()
            },
        })
    } else {
        Ok(Command::Zrange {
            key: args[1].clone(),
            opts: ZRangeOpts {
                by_lex: true,
                min_lex: lo,
                max_lex: hi,
                rev: false,
                ..ZRangeOpts::default()
            },
        })
    }
}

/// What `ZREVRANGEBYLEX` builds from its arguments.
pub open spec fn zrevrangebylex_spec(a: Seq<Seq<u8>>) -> Result<CommandView, Seq<char>> {
    if a.len() != 4 && a.len() != 7 {
        Err("wrong number of arguments for 'zrevrangebylex' command"@)
    } else {
        match lex_bound_spec(a[2]) {
            Err(e) => Err(e),
            Ok(hi) => {
                match lex_bound_spec(a[3]) {
                    Err(e) => Err(e),
                    Ok(lo) => {
                        if a.len() == 7 {
                            let opt = upper_word(a[4]);
                            if opt != "LIMIT"@ {
                                Err("syntax error"@)
                            } else {
                                match i64_of(a[5]) {
                                    None => Err("value is not an integer or out of range"@),
                                    Some(off) => {
                                        match i64_of(a[6]) {
                                            None => Err("value is not an integer or out of range"@),
                                            Some(c) => {
                                                let offset: usize = if off < 0 { usize::MAX } else { off as usize };
                                                let count = if c < 0 { None } else { Some(c as usize) };
                                                Ok(CommandView::Zrange {
                                                    key: a[1],
                                                    opts: ZRangeOptsView {
                                                        by_lex: true,
                                                        min_lex: lo,
                                                        max_lex: hi,
                                                        rev: true,
                                                        offset,
                                                        count,
                                                        ..ZRangeOpts::plain()
                                                    },
                                                })
                                            },
                                        }
                                    },
                                }
                            }
                        } else {
                            Ok(CommandView::Zrange {
                                key: a[1],
                                opts: ZRangeOptsView {
                                    by_lex: true,
                                    min_lex: lo,
                                    max_lex: hi,
                                    rev: true,
                                    ..ZRangeOpts::plain()
                                },
                            })
                        }
                    },
                }
            },
        }
    }
}

pub(crate) fn build_zrevrangebylex(args: &Vec<Bytes>) -> (r: Result<Command, String>)
    requires
        args.len() > 0,
    ensures
        built(r) == zrevrangebylex_spec(contents(args@)),
{
    if args.len() != 4 && args.len() != 7 {
        return Err("wrong number of arguments for 'zrevrangebylex' command".to_owned());
    }
    let hi: LexBound = match parse_lex_bound(&args[2]) {
        Ok(v) => v,
        Err(e) => return Err(e),
    };
    let lo: LexBound = match parse_lex_bound(&args[3]) {
        Ok(v) => v,
        Err(e) => return Err(e),
    };
    if args.len() == 7 {
        let opt: String = upper(&args[4]);
        if !same_text(&opt, "LIMIT") {
            return Err("syntax error".to_owned());
        }
        let off: i64 = match read_i64(args[5].as_ref()) {
            Some(v) => v,
            None => return Err("value is not an integer or out of range".to_owned()),
        };
        let c: i64 = match read_i64(args[6].as_ref()) {
            Some(v) => v,
            None => return Err("value is not an integer or out of range".to_owned()),
        };
        let offset: usize = if off < 0 { usize::MAX } else { off as usize };
        let count: Option<usize> = if c < 0 { None } else { Some(c as usize) };
        Ok(Command::Zrange {
            key: args[1].clone(),
            opts: ZRangeOpts {
                by_lex: true,
                min_lex: lo,
                max_lex: hi,
                rev: true,
                offset,
                count,
                ..ZRangeOpts::default()
            },
        })
    } else {
        Ok(Command::Zrange {
            key: args[1].clone(),
            opts: ZRangeOpts {
                by_lex: true,
                min_lex: lo,
                max_lex: hi,
                rev: true,
                ..ZRangeOpts::default()
            },
        })
    }
}

/// What `ZRANGESTORE` makes of its arguments from `i` on, given what came before them.
pub open spec fn zrangestore_options(
    a: Seq<Seq<u8>>,
    by_score: bool,
    by_lex: bool,
    rev: bool,
    has_limit: bool,
    offset: usize,
    count: Option<usize>,
    i: int,
) -> Result<(bool, bool, bool, bool, usize, Option<usize>), Seq<char>>
    decreases a.len() - i,
{
    if i >= a.len() {
        Ok((by_score, by_lex, rev, has_limit, offset, count))
    } else {
        let opt = upper_word(a[i]);
        if opt == "BYSCORE"@ {
            let by_score = true;
            let i: int = i + 1;
            zrangestore_options(a, by_score, by_lex, rev, has_limit, offset, count, i)
        } else if opt == "BYLEX"@ {
            let by_lex = true;
            let i: int = i + 1;
            zrangestore_options(a, by_score, by_lex, rev, has_limit, offset, count, i)
        } else if opt == "REV"@ {
            let rev = true;
            let i: int = i + 1;
            zrangestore_options(a, by_score, by_lex, rev, has_limit, offset, count, i)
        } else if opt == "LIMIT"@ {
            let has_limit = true;
            if a.len() - i <= 2 {
                Err("syntax error"@)
            } else {
                match i64_of(a[i + 1]) {
                    None => Err("value is not an integer or out of range"@),
                    Some(off) => {
                        match i64_of(a[i + 2]) {
                            None => Err("value is not an integer or out of range"@),
                            Some(c) => {
                                let offset: usize = if off < 0 { usize::MAX } else { off as usize };
                                let count = if c < 0 { None } else { Some(c as usize) };
                                let i: int = i + 3;
                                zrangestore_options(
                                    a,
                                    by_score,
                                    by_lex,
                                    rev,
                                    has_limit,
                                    offset,
                                    count,
                                    i,
                                )
                            },
                        }
                    },
                }
            }
        } else {
            Err("syntax error"@)
        }
    }
}

/// What `ZRANGESTORE` builds from its arguments.
pub open spec fn zrangestore_spec(
    a: Seq<Seq<u8>>,
    env: &ParseEnv,
) -> Result<CommandView, Seq<char>> {
    if a.len() < 5 {
        Err("wrong number of arguments for 'zrangestore' command"@)
    } else {
        let by_score = false;
        let by_lex = false;
        let rev = false;
        let has_limit = false;
        let offset: usize = 0;
        let count: Option<usize> = None;
        let i: int = 5;
        match zrangestore_options(a, by_score, by_lex, rev, has_limit, offset, count, i) {
            Err(e) => Err(e),
            Ok((by_score, by_lex, rev, has_limit, offset, count)) => {
                if by_score && by_lex {
                    Err("syntax error"@)
                } else if has_limit && !by_score && !by_lex {
                    Err("syntax error"@)
                } else {
                    let min_at: int = if rev { 4 } else { 3 };
                    let max_at: int = if rev { 3 } else { 4 };
                    if by_score {
                        match score_bound(env, a[min_at]) {
                            Err(e) => Err(e),
                            Ok(lo) => {
                                match score_bound(env, a[max_at]) {
                                    Err(e) => Err(e),
                                    Ok(hi) => {
                                        Ok(CommandView::Zrangestore {
                                            dst: a[1],
                                            src: a[2],
                                            opts: ZRangeOptsView {
                                                by_score,
                                                by_lex,
                                                rev,
                                                offset,
                                                count,
                                                min_score: lo.0,
                                                min_inc: lo.1,
                                                max_score: hi.0,
                                                max_inc: hi.1,
                                                ..ZRangeOpts::plain()
                                            },
                                        })
                                    },
                                }
                            },
                        }
                    } else if by_lex {
                        match lex_bound_spec(a[min_at]) {
                            Err(e) => Err(e),
                            Ok(lo) => {
                                match lex_bound_spec(a[max_at]) {
                                    Err(e) => Err(e),
                                    Ok(hi) => {
                                        Ok(CommandView::Zrangestore {
                                            dst: a[1],
                                            src: a[2],
                                            opts: ZRangeOptsView {
                                                by_score,
                                                by_lex,
                                                rev,
                                                offset,
                                                count,
                                                min_lex: lo,
                                                max_lex: hi,
                                                ..ZRangeOpts::plain()
                                            },
                                        })
                                    },
                                }
                            },
                        }
                    } else {
                        match i64_of(a[3]) {
                            None => Err("value is not an integer or out of range"@),
                            Some(start) => {
                                match i64_of(a[4]) {
                                    None => Err("value is not an integer or out of range"@),
                                    Some(stop) => {
                                        Ok(CommandView::Zrangestore {
                                            dst: a[1],
                                            src: a[2],
                                            opts: ZRangeOptsView {
                                                by_score,
                                                by_lex,
                                                rev,
                                                offset,
                                                count,
                                                start,
                                                stop,
                                                ..ZRangeOpts::plain()
                                            },
                                        })
                                    },
                                }
                            },
                        }
                    }
                }
            },
        }
    }
}

#[verifier::loop_isolation(false)]
pub(crate) fn build_zrangestore(args: &Vec<Bytes>, env: &ParseEnv) -> (r: Result<Command, String>)
    requires
        args.len() > 0,
    ensures
        built(r) == zrangestore_spec(contents(args@), env),
{
    if args.len() < 5 {
        return Err("wrong number of arguments for 'zrangestore' command".to_owned());
    }
    let mut by_score: bool = false;
    let mut by_lex: bool = false;
    let mut rev: bool = false;
    let mut has_limit: bool = false;
    let mut offset: usize = 0;
    let mut count: Option<usize> = None;
    let mut i: usize = 5;
    let ghost goal_zrangestore_options = zrangestore_options(
        contents(args@),
        by_score,
        by_lex,
        rev,
        has_limit,
        offset,
        count,
        i as int,
    );
    while i < args.len()
        invariant
            i <= args.len(),
            zrangestore_options(
                contents(args@),
                by_score,
                by_lex,
                rev,
                has_limit,
                offset,
                count,
                i as int,
            ) == goal_zrangestore_options,
        decreases args.len() - i,
    {
        let opt: String = upper(&args[i]);
        if same_text(&opt, "BYSCORE") {
            by_score = true;
            i = i + 1;
        } else if same_text(&opt, "BYLEX") {
            by_lex = true;
            i = i + 1;
        } else if same_text(&opt, "REV") {
            rev = true;
            i = i + 1;
        } else if same_text(&opt, "LIMIT") {
            has_limit = true;
            if args.len() - i <= 2 {
                return Err("syntax error".to_owned());
            }
            let off: i64 = match read_i64(args[i + 1].as_ref()) {
                Some(v) => v,
                None => return Err("value is not an integer or out of range".to_owned()),
            };
            let c: i64 = match read_i64(args[i + 2].as_ref()) {
                Some(v) => v,
                None => return Err("value is not an integer or out of range".to_owned()),
            };
            offset = if off < 0 { usize::MAX } else { off as usize };
            count = if c < 0 { None } else { Some(c as usize) };
            i = i + 3;
        } else {
            return Err("syntax error".to_owned());
        }
    }
    if by_score && by_lex {
        return Err("syntax error".to_owned());
    }
    if has_limit && !by_score && !by_lex {
        return Err("syntax error".to_owned());
    }
    let min_at: usize = if rev { 4 } else { 3 };
    let max_at: usize = if rev { 3 } else { 4 };
    if by_score {
        let lo: (Double, bool) = match parse_score_bound(args[min_at].as_ref(), env) {
            Ok(v) => v,
            Err(e) => return Err(e),
        };
        let hi: (Double, bool) = match parse_score_bound(args[max_at].as_ref(), env) {
            Ok(v) => v,
            Err(e) => return Err(e),
        };
        Ok(Command::Zrangestore {
            dst: args[1].clone(),
            src: args[2].clone(),
            opts: ZRangeOpts {
                by_score,
                by_lex,
                rev,
                offset,
                count,
                min_score: lo.0,
                min_inc: lo.1,
                max_score: hi.0,
                max_inc: hi.1,
                ..ZRangeOpts::default()
            },
        })
    } else if by_lex {
        let lo: LexBound = match parse_lex_bound(&args[min_at]) {
            Ok(v) => v,
            Err(e) => return Err(e),
        };
        let hi: LexBound = match parse_lex_bound(&args[max_at]) {
            Ok(v) => v,
            Err(e) => return Err(e),
        };
        Ok(Command::Zrangestore {
            dst: args[1].clone(),
            src: args[2].clone(),
            opts: ZRangeOpts {
                by_score,
                by_lex,
                rev,
                offset,
                count,
                min_lex: lo,
                max_lex: hi,
                ..ZRangeOpts::default()
            },
        })
    } else {
        let start: i64 = match read_i64(args[3].as_ref()) {
            Some(v) => v,
            None => return Err("value is not an integer or out of range".to_owned()),
        };
        let stop: i64 = match read_i64(args[4].as_ref()) {
            Some(v) => v,
            None => return Err("value is not an integer or out of range".to_owned()),
        };
        Ok(Command::Zrangestore {
            dst: args[1].clone(),
            src: args[2].clone(),
            opts: ZRangeOpts {
                by_score,
                by_lex,
                rev,
                offset,
                count,
                start,
                stop,
                ..ZRangeOpts::default()
            },
        })
    }
}

/// What `ZPOPMIN` builds from its arguments.
pub open spec fn zpopmin_spec(a: Seq<Seq<u8>>) -> Result<CommandView, Seq<char>> {
    if a.len() < 2 {
        Err("wrong number of arguments for 'zpopmin' command"@)
    } else if a.len() > 2 {
        match i64_of(a[2]) {
            None => Err("value is not an integer or out of range"@),
            Some(val) => {
                if val < 0 {
                    Err("value is out of range, must be positive"@)
                } else {
                    Ok(CommandView::Zpopmin { key: a[1], count: Some(val as usize) })
                }
            },
        }
    } else {
        Ok(CommandView::Zpopmin { key: a[1], count: None })
    }
}

pub(crate) fn build_zpopmin(args: &Vec<Bytes>) -> (r: Result<Command, String>)
    requires
        args.len() > 0,
    ensures
        built(r) == zpopmin_spec(contents(args@)),
{
    if args.len() < 2 {
        return Err("wrong number of arguments for 'zpopmin' command".to_owned());
    }
    if args.len() > 2 {
        let val: i64 = match read_i64(args[2].as_ref()) {
            Some(v) => v,
            None => return Err("value is not an integer or out of range".to_owned()),
        };
        if val < 0 {
            return Err("value is out of range, must be positive".to_owned());
        }
        Ok(Command::Zpopmin { key: args[1].clone(), count: Some(val as usize) })
    } else {
        Ok(Command::Zpopmin { key: args[1].clone(), count: None })
    }
}

/// What `ZPOPMAX` builds from its arguments.
pub open spec fn zpopmax_spec(a: Seq<Seq<u8>>) -> Result<CommandView, Seq<char>> {
    if a.len() < 2 {
        Err("wrong number of arguments for 'zpopmax' command"@)
    } else if a.len() > 2 {
        match i64_of(a[2]) {
            None => Err("value is not an integer or out of range"@),
            Some(val) => {
                if val < 0 {
                    Err("value is out of range, must be positive"@)
                } else {
                    Ok(CommandView::Zpopmax { key: a[1], count: Some(val as usize) })
                }
            },
        }
    } else {
        Ok(CommandView::Zpopmax { key: a[1], count: None })
    }
}

pub(crate) fn build_zpopmax(args: &Vec<Bytes>) -> (r: Result<Command, String>)
    requires
        args.len() > 0,
    ensures
        built(r) == zpopmax_spec(contents(args@)),
{
    if args.len() < 2 {
        return Err("wrong number of arguments for 'zpopmax' command".to_owned());
    }
    if args.len() > 2 {
        let val: i64 = match read_i64(args[2].as_ref()) {
            Some(v) => v,
            None => return Err("value is not an integer or out of range".to_owned()),
        };
        if val < 0 {
            return Err("value is out of range, must be positive".to_owned());
        }
        Ok(Command::Zpopmax { key: args[1].clone(), count: Some(val as usize) })
    } else {
        Ok(Command::Zpopmax { key: args[1].clone(), count: None })
    }
}

/// What `BZPOPMIN` builds from its arguments.
pub open spec fn bzpopmin_spec(a: Seq<Seq<u8>>, env: &ParseEnv) -> Result<CommandView, Seq<char>> {
    if a.len() < 3 {
        Err("wrong number of arguments for 'bzpopmin' command"@)
    } else {
        match timeout_spec(double_of(env, a[a.len() - 1])) {
            Err(e) => Err(e),
            Ok(timeout) => {
                Ok(CommandView::Bzpopmin { keys: a.subrange(1, a.len() - 1), timeout })
            },
        }
    }
}

pub(crate) fn build_bzpopmin(args: &Vec<Bytes>, env: &ParseEnv) -> (r: Result<Command, String>)
    requires
        args.len() > 0,
    ensures
        built(r) == bzpopmin_spec(contents(args@), env),
{
    if args.len() < 3 {
        return Err("wrong number of arguments for 'bzpopmin' command".to_owned());
    }
    let timeout: Double = match checked_timeout(env.double(args[args.len() - 1].as_ref())) {
        Ok(v) => v,
        Err(e) => return Err(e),
    };
    Ok(Command::Bzpopmin { keys: keys_between(args, 1, args.len() - 1), timeout })
}

/// What `BZPOPMAX` builds from its arguments.
pub open spec fn bzpopmax_spec(a: Seq<Seq<u8>>, env: &ParseEnv) -> Result<CommandView, Seq<char>> {
    if a.len() < 3 {
        Err("wrong number of arguments for 'bzpopmax' command"@)
    } else {
        match timeout_spec(double_of(env, a[a.len() - 1])) {
            Err(e) => Err(e),
            Ok(timeout) => {
                Ok(CommandView::Bzpopmax { keys: a.subrange(1, a.len() - 1), timeout })
            },
        }
    }
}

pub(crate) fn build_bzpopmax(args: &Vec<Bytes>, env: &ParseEnv) -> (r: Result<Command, String>)
    requires
        args.len() > 0,
    ensures
        built(r) == bzpopmax_spec(contents(args@), env),
{
    if args.len() < 3 {
        return Err("wrong number of arguments for 'bzpopmax' command".to_owned());
    }
    let timeout: Double = match checked_timeout(env.double(args[args.len() - 1].as_ref())) {
        Ok(v) => v,
        Err(e) => return Err(e),
    };
    Ok(Command::Bzpopmax { keys: keys_between(args, 1, args.len() - 1), timeout })
}

/// What `ZMPOP` builds from its arguments.
pub open spec fn zmpop_spec(a: Seq<Seq<u8>>) -> Result<CommandView, Seq<char>> {
    if a.len() < 4 {
        Err("wrong number of arguments for 'zmpop' command"@)
    } else {
        match i64_of(a[1]) {
            None => Err("numkeys should be greater than 0"@),
            Some(wanted) => {
                if wanted <= 0 {
                    Err("numkeys should be greater than 0"@)
                } else {
                    let numkeys: usize = wanted as usize;
                    if numkeys >= a.len() || a.len() - numkeys <= 2 {
                        Err("syntax error"@)
                    } else {
                        let at: int = numkeys + 2;
                        let side = upper_word(a[at]);
                        if side != "MIN"@ && side != "MAX"@ {
                            Err("syntax error"@)
                        } else if a.len() - at > 1 {
                            if a.len() - at != 3 {
                                Err("syntax error"@)
                            } else if !spells(a[at + 1], "COUNT"@) {
                                Err("syntax error"@)
                            } else {
                                match i64_of(a[at + 2]) {
                                    None => Err("count should be greater than 0"@),
                                    Some(c) => {
                                        if c <= 0 {
                                            Err("count should be greater than 0"@)
                                        } else {
                                            Ok(CommandView::Zmpop {
                                                keys: a.subrange(2, at),
                                                is_min: side == "MIN"@,
                                                count: c as usize,
                                            })
                                        }
                                    },
                                }
                            }
                        } else {
                            Ok(CommandView::Zmpop {
                                keys: a.subrange(2, at),
                                is_min: side == "MIN"@,
                                count: 1,
                            })
                        }
                    }
                }
            },
        }
    }
}

pub(crate) fn build_zmpop(args: &Vec<Bytes>) -> (r: Result<Command, String>)
    requires
        args.len() > 0,
    ensures
        built(r) == zmpop_spec(contents(args@)),
{
    if args.len() < 4 {
        return Err("wrong number of arguments for 'zmpop' command".to_owned());
    }
    let wanted: i64 = match read_i64(args[1].as_ref()) {
        Some(v) => v,
        None => return Err("numkeys should be greater than 0".to_owned()),
    };
    if wanted <= 0 {
        return Err("numkeys should be greater than 0".to_owned());
    }
    let numkeys: usize = wanted as usize;
    if numkeys >= args.len() || args.len() - numkeys <= 2 {
        return Err("syntax error".to_owned());
    }
    let at: usize = numkeys + 2;
    let side: String = upper(&args[at]);
    if !same_text(&side, "MIN") && !same_text(&side, "MAX") {
        return Err("syntax error".to_owned());
    }
    if args.len() - at > 1 {
        if args.len() - at != 3 {
            return Err("syntax error".to_owned());
        }
        if !spells_word(args[at + 1].as_ref(), "COUNT") {
            return Err("syntax error".to_owned());
        }
        let c: i64 = match read_i64(args[at + 2].as_ref()) {
            Some(v) => v,
            None => return Err("count should be greater than 0".to_owned()),
        };
        if c <= 0 {
            return Err("count should be greater than 0".to_owned());
        }
        Ok(Command::Zmpop {
            keys: keys_between(args, 2, at),
            is_min: same_text(&side, "MIN"),
            count: c as usize,
        })
    } else {
        Ok(Command::Zmpop {
            keys: keys_between(args, 2, at),
            is_min: same_text(&side, "MIN"),
            count: 1,
        })
    }
}

/// What `BZMPOP` builds from its arguments.
pub open spec fn bzmpop_spec(a: Seq<Seq<u8>>, env: &ParseEnv) -> Result<CommandView, Seq<char>> {
    if a.len() < 5 {
        Err("wrong number of arguments for 'bzmpop' command"@)
    } else {
        match timeout_spec(double_of(env, a[1])) {
            Err(e) => Err(e),
            Ok(timeout) => {
                match i64_of(a[2]) {
                    None => Err("numkeys should be greater than 0"@),
                    Some(wanted) => {
                        if wanted <= 0 {
                            Err("numkeys should be greater than 0"@)
                        } else {
                            let numkeys: usize = wanted as usize;
                            if numkeys >= a.len() || a.len() - numkeys <= 3 {
                                Err("syntax error"@)
                            } else {
                                let at: int = numkeys + 3;
                                let side = upper_word(a[at]);
                                if side != "MIN"@ && side != "MAX"@ {
                                    Err("syntax error"@)
                                } else if a.len() - at > 1 {
                                    if a.len() - at != 3 {
                                        Err("syntax error"@)
                                    } else if !spells(a[at + 1], "COUNT"@) {
                                        Err("syntax error"@)
                                    } else {
                                        match i64_of(a[at + 2]) {
                                            None => Err("count should be greater than 0"@),
                                            Some(c) => {
                                                if c <= 0 {
                                                    Err("count should be greater than 0"@)
                                                } else {
                                                    Ok(CommandView::Bzmpop {
                                                        timeout,
                                                        keys: a.subrange(3, at),
                                                        is_min: side == "MIN"@,
                                                        count: c as usize,
                                                    })
                                                }
                                            },
                                        }
                                    }
                                } else {
                                    Ok(CommandView::Bzmpop {
                                        timeout,
                                        keys: a.subrange(3, at),
                                        is_min: side == "MIN"@,
                                        count: 1,
                                    })
                                }
                            }
                        }
                    },
                }
            },
        }
    }
}

pub(crate) fn build_bzmpop(args: &Vec<Bytes>, env: &ParseEnv) -> (r: Result<Command, String>)
    requires
        args.len() > 0,
    ensures
        built(r) == bzmpop_spec(contents(args@), env),
{
    if args.len() < 5 {
        return Err("wrong number of arguments for 'bzmpop' command".to_owned());
    }
    let timeout: Double = match checked_timeout(env.double(args[1].as_ref())) {
        Ok(v) => v,
        Err(e) => return Err(e),
    };
    let wanted: i64 = match read_i64(args[2].as_ref()) {
        Some(v) => v,
        None => return Err("numkeys should be greater than 0".to_owned()),
    };
    if wanted <= 0 {
        return Err("numkeys should be greater than 0".to_owned());
    }
    let numkeys: usize = wanted as usize;
    if numkeys >= args.len() || args.len() - numkeys <= 3 {
        return Err("syntax error".to_owned());
    }
    let at: usize = numkeys + 3;
    let side: String = upper(&args[at]);
    if !same_text(&side, "MIN") && !same_text(&side, "MAX") {
        return Err("syntax error".to_owned());
    }
    if args.len() - at > 1 {
        if args.len() - at != 3 {
            return Err("syntax error".to_owned());
        }
        if !spells_word(args[at + 1].as_ref(), "COUNT") {
            return Err("syntax error".to_owned());
        }
        let c: i64 = match read_i64(args[at + 2].as_ref()) {
            Some(v) => v,
            None => return Err("count should be greater than 0".to_owned()),
        };
        if c <= 0 {
            return Err("count should be greater than 0".to_owned());
        }
        Ok(Command::Bzmpop {
            timeout,
            keys: keys_between(args, 3, at),
            is_min: same_text(&side, "MIN"),
            count: c as usize,
        })
    } else {
        Ok(Command::Bzmpop {
            timeout,
            keys: keys_between(args, 3, at),
            is_min: same_text(&side, "MIN"),
            count: 1,
        })
    }
}

/// How several sorted sets become one: the weight of each, if there are any, the way of combining
/// scores, and whether the scores are wanted.
pub struct Combination {
    pub weights: Seq<Double>,
    pub aggregate: Aggregate,
    pub with_scores: bool,
}

impl Combination {
    /// Sums without weights.
    pub open spec fn plain() -> Combination {
        Combination { weights: Seq::empty(), aggregate: Aggregate::Sum, with_scores: false }
    }
}

/// What `left` weights that stand from `i` on add to those before them, with the place behind them.
pub open spec fn combine_weights(
    a: Seq<Seq<u8>>,
    env: &ParseEnv,
    weights: Seq<Double>,
    i: int,
    left: int,
) -> Result<(Seq<Double>, int), Seq<char>>
    decreases left,
{
    if left <= 0 {
        Ok((weights, i))
    } else if i >= a.len() {
        Err("syntax error"@)
    } else {
        match redis_double_of(env, a[i]) {
            None => Err("weight value is not a float"@),
            Some(w) => combine_weights(a, env, weights.push(w), i + 1, left - 1),
        }
    }
}

/// Weights take up as many places as there are, and no more than there are arguments.
pub proof fn lemma_combine_weights(
    a: Seq<Seq<u8>>,
    env: &ParseEnv,
    weights: Seq<Double>,
    i: int,
    left: int,
)
    requires
        left >= 0,
    ensures
        combine_weights(a, env, weights, i, left) matches Ok(r) ==> {
            &&& r.1 == i + left
            &&& i <= a.len() ==> r.1 <= a.len()
            &&& r.0.len() == weights.len() + left
        },
    decreases left,
{
    if left > 0 && i < a.len() {
        if let Some(w) = redis_double_of(env, a[i]) {
            lemma_combine_weights(a, env, weights.push(w), i + 1, left - 1);
        }
    }
}

/// What the options from `i` on make of a way to combine sorted sets; `scored` where scores can be
/// asked for.
pub open spec fn combine_options(
    a: Seq<Seq<u8>>,
    env: &ParseEnv,
    numkeys: usize,
    scored: bool,
    how: Combination,
    i: int,
) -> Result<Combination, Seq<char>>
    decreases a.len() - i,
{
    if i >= a.len() {
        Ok(how)
    } else {
        let opt = upper_word(a[i]);
        if opt == "WEIGHTS"@ {
            proof {
                lemma_combine_weights(a, env, how.weights, i + 1, numkeys as int);
            }
            match combine_weights(a, env, how.weights, i + 1, numkeys as int) {
                Err(e) => Err(e),
                Ok((weights, i)) => {
                    combine_options(a, env, numkeys, scored, (Combination { weights, ..how }), i)
                },
            }
        } else if opt == "AGGREGATE"@ {
            if a.len() - i <= 1 {
                Err("syntax error"@)
            } else {
                match aggregate_of(upper_word(a[i + 1])) {
                    None => Err("syntax error"@),
                    Some(aggregate) => {
                        let how = Combination { aggregate, ..how };
                        combine_options(a, env, numkeys, scored, how, i + 2)
                    },
                }
            }
        } else if opt == "WITHSCORES"@ && scored {
            let how = Combination { with_scores: true, ..how };
            combine_options(a, env, numkeys, scored, how, i + 1)
        } else {
            Err("syntax error"@)
        }
    }
}

/// Reads as many weights as there are keys, which stand from `from` on, and gives the place behind
/// them.
#[verifier::loop_isolation(false)]
fn read_weights(
    args: &Vec<Bytes>,
    env: &ParseEnv,
    numkeys: usize,
    from: usize,
    weights: &mut Vec<Double>,
) -> (r: Result<usize, String>)
    requires
        from <= args.len(),
    ensures
        match combine_weights(
            contents(args@),
            env,
            old(weights)@,
            from as int,
            numkeys as int,
        ) {
            Ok((all, behind)) => r matches Ok(i) && i == behind && final(weights)@ == all,
            Err(e) => r matches Err(x) && x@ == e,
        },
{
    let ghost goal = combine_weights(
        contents(args@),
        env,
        weights@,
        from as int,
        numkeys as int,
    );
    let mut i: usize = from;
    let mut left: usize = numkeys;
    while left > 0
        invariant
            i <= args.len(),
            combine_weights(contents(args@), env, weights@, i as int, left as int) == goal,
        decreases left,
    {
        if i >= args.len() {
            return Err("syntax error".to_owned());
        }
        let w: Double = match redis_double(env, args[i].as_ref()) {
            Some(v) => v,
            None => return Err("weight value is not a float".to_owned()),
        };
        weights.push(w);
        i = i + 1;
        left = left - 1;
    }
    Ok(i)
}

/// Reads from the options from `from` on how sorted sets are combined.
#[verifier::loop_isolation(false)]
fn read_combination(
    args: &Vec<Bytes>,
    env: &ParseEnv,
    numkeys: usize,
    scored: bool,
    from: usize,
) -> (r: Result<(Vec<Double>, Aggregate, bool), String>)
    requires
        from <= args.len(),
    ensures
        match combine_options(
            contents(args@),
            env,
            numkeys,
            scored,
            Combination::plain(),
            from as int,
        ) {
            Ok(how) => r matches Ok(x) && x.0@ == how.weights && x.1 == how.aggregate && x.2
                == how.with_scores,
            Err(e) => r matches Err(x) && x@ == e,
        },
{
    let ghost a = contents(args@);
    let ghost goal = combine_options(
        a,
        env,
        numkeys,
        scored,
        Combination::plain(),
        from as int,
    );
    let mut weights: Vec<Double> = Vec::new();
    let mut aggregate: Aggregate = Aggregate::Sum;
    let mut with_scores: bool = false;
    let mut i: usize = from;
    while i < args.len()
        invariant
            i <= args.len(),
            a == contents(args@),
            combine_options(
                a,
                env,
                numkeys,
                scored,
                (Combination { weights: weights@, aggregate, with_scores }),
                i as int,
            ) == goal,
        decreases args.len() - i,
    {
        let opt: String = upper(&args[i]);
        if same_text(&opt, "WEIGHTS") {
            proof {
                lemma_combine_weights(a, env, weights@, i + 1, numkeys as int);
            }
            match read_weights(args, env, numkeys, i + 1, &mut weights) {
                Ok(behind) => {
                    i = behind;
                },
                Err(e) => return Err(e),
            }
        } else if same_text(&opt, "AGGREGATE") {
            if args.len() - i <= 1 {
                return Err("syntax error".to_owned());
            }
            aggregate = match read_aggregate(upper(&args[i + 1]).as_str()) {
                Some(v) => v,
                None => return Err("syntax error".to_owned()),
            };
            i = i + 2;
        } else if scored && same_text(&opt, "WITHSCORES") {
            with_scores = true;
            i = i + 1;
        } else {
            return Err("syntax error".to_owned());
        }
    }
    Ok((weights, aggregate, with_scores))
}

/// What `ZUNIONSTORE` builds from its arguments.
pub open spec fn zunionstore_spec(
    a: Seq<Seq<u8>>,
    env: &ParseEnv,
) -> Result<CommandView, Seq<char>> {
    if a.len() < 4 {
        Err("wrong number of arguments for 'zunionstore' command"@)
    } else {
        match i64_of(a[2]) {
            None => Err("value is not an integer or out of range"@),
            Some(wanted) => {
                if wanted <= 0 {
                    Err("at least 1 input key is needed for 'zunionstore' command"@)
                } else {
                    let numkeys: usize = wanted as usize;
                    if numkeys >= a.len() || a.len() - numkeys <= 2 {
                        Err("syntax error"@)
                    } else {
                        let at: int = numkeys + 3;
                        let start = Combination::plain();
                        match combine_options(a, env, numkeys, false, start, at) {
                            Err(e) => Err(e),
                            Ok(how) => {
                                Ok(CommandView::Zunionstore {
                                    destination: a[1],
                                    keys: a.subrange(3, at),
                                    weights: how.weights,
                                    aggregate: how.aggregate,
                                })
                            },
                        }
                    }
                }
            },
        }
    }
}

pub(crate) fn build_zunionstore(args: &Vec<Bytes>, env: &ParseEnv) -> (r: Result<Command, String>)
    requires
        args.len() > 0,
    ensures
        built(r) == zunionstore_spec(contents(args@), env),
{
    if args.len() < 4 {
        return Err("wrong number of arguments for 'zunionstore' command".to_owned());
    }
    let wanted: i64 = match read_i64(args[2].as_ref()) {
        Some(v) => v,
        None => return Err("value is not an integer or out of range".to_owned()),
    };
    if wanted <= 0 {
        return Err("at least 1 input key is needed for 'zunionstore' command".to_owned());
    }
    let numkeys: usize = wanted as usize;
    if numkeys >= args.len() || args.len() - numkeys <= 2 {
        return Err("syntax error".to_owned());
    }
    let at: usize = numkeys + 3;
    let (weights, aggregate, _): (Vec<Double>, Aggregate, bool) = match read_combination(
        args,
        env,
        numkeys,
        false,
        at,
    ) {
        Ok(how) => how,
        Err(e) => return Err(e),
    };
    Ok(Command::Zunionstore {
        destination: args[1].clone(),
        keys: keys_between(args, 3, at),
        weights,
        aggregate,
    })
}

/// What `ZINTERSTORE` builds from its arguments.
pub open spec fn zinterstore_spec(
    a: Seq<Seq<u8>>,
    env: &ParseEnv,
) -> Result<CommandView, Seq<char>> {
    if a.len() < 4 {
        Err("wrong number of arguments for 'zinterstore' command"@)
    } else {
        match i64_of(a[2]) {
            None => Err("value is not an integer or out of range"@),
            Some(wanted) => {
                if wanted <= 0 {
                    Err("at least 1 input key is needed for 'zinterstore' command"@)
                } else {
                    let numkeys: usize = wanted as usize;
                    if numkeys >= a.len() || a.len() - numkeys <= 2 {
                        Err("syntax error"@)
                    } else {
                        let at: int = numkeys + 3;
                        let start = Combination::plain();
                        match combine_options(a, env, numkeys, false, start, at) {
                            Err(e) => Err(e),
                            Ok(how) => {
                                Ok(CommandView::Zinterstore {
                                    destination: a[1],
                                    keys: a.subrange(3, at),
                                    weights: how.weights,
                                    aggregate: how.aggregate,
                                })
                            },
                        }
                    }
                }
            },
        }
    }
}

pub(crate) fn build_zinterstore(args: &Vec<Bytes>, env: &ParseEnv) -> (r: Result<Command, String>)
    requires
        args.len() > 0,
    ensures
        built(r) == zinterstore_spec(contents(args@), env),
{
    if args.len() < 4 {
        return Err("wrong number of arguments for 'zinterstore' command".to_owned());
    }
    let wanted: i64 = match read_i64(args[2].as_ref()) {
        Some(v) => v,
        None => return Err("value is not an integer or out of range".to_owned()),
    };
    if wanted <= 0 {
        return Err("at least 1 input key is needed for 'zinterstore' command".to_owned());
    }
    let numkeys: usize = wanted as usize;
    if numkeys >= args.len() || args.len() - numkeys <= 2 {
        return Err("syntax error".to_owned());
    }
    let at: usize = numkeys + 3;
    let (weights, aggregate, _): (Vec<Double>, Aggregate, bool) = match read_combination(
        args,
        env,
        numkeys,
        false,
        at,
    ) {
        Ok(how) => how,
        Err(e) => return Err(e),
    };
    Ok(Command::Zinterstore {
        destination: args[1].clone(),
        keys: keys_between(args, 3, at),
        weights,
        aggregate,
    })
}

/// What `ZDIFFSTORE` builds from its arguments.
pub open spec fn zdiffstore_spec(a: Seq<Seq<u8>>) -> Result<CommandView, Seq<char>> {
    if a.len() < 4 {
        Err("wrong number of arguments for 'zdiffstore' command"@)
    } else {
        match i64_of(a[2]) {
            None => Err("value is not an integer or out of range"@),
            Some(wanted) => {
                if wanted <= 0 {
                    Err("at least 1 input key is needed for 'zdiffstore' command"@)
                } else if a.len() - 3 != wanted as usize {
                    Err("syntax error"@)
                } else {
                    Ok(CommandView::Zdiffstore { destination: a[1], keys: a.skip(3) })
                }
            },
        }
    }
}

pub(crate) fn build_zdiffstore(args: &Vec<Bytes>) -> (r: Result<Command, String>)
    requires
        args.len() > 0,
    ensures
        built(r) == zdiffstore_spec(contents(args@)),
{
    if args.len() < 4 {
        return Err("wrong number of arguments for 'zdiffstore' command".to_owned());
    }
    let wanted: i64 = match read_i64(args[2].as_ref()) {
        Some(v) => v,
        None => return Err("value is not an integer or out of range".to_owned()),
    };
    if wanted <= 0 {
        return Err("at least 1 input key is needed for 'zdiffstore' command".to_owned());
    }
    if args.len() - 3 != wanted as usize {
        return Err("syntax error".to_owned());
    }
    Ok(Command::Zdiffstore { destination: args[1].clone(), keys: keys_from(args, 3) })
}

/// What `ZDIFF` builds from its arguments.
pub open spec fn zdiff_spec(a: Seq<Seq<u8>>) -> Result<CommandView, Seq<char>> {
    if a.len() < 3 {
        Err("wrong number of arguments for 'zdiff' command"@)
    } else {
        match i64_of(a[1]) {
            None => Err("value is not an integer or out of range"@),
            Some(wanted) => {
                if wanted <= 0 {
                    Err("at least 1 input key is needed for 'zdiff' command"@)
                } else {
                    let numkeys: usize = wanted as usize;
                    if numkeys >= a.len() || a.len() - numkeys <= 1 {
                        Err("syntax error"@)
                    } else {
                        let at: int = numkeys + 2;
                        if a.len() > at {
                            let opt = upper_word(a[at]);
                            if opt != "WITHSCORES"@ {
                                Err("syntax error"@)
                            } else {
                                Ok(CommandView::Zdiff {
                                    keys: a.subrange(2, at),
                                    with_scores: true,
                                })
                            }
                        } else {
                            Ok(CommandView::Zdiff { keys: a.subrange(2, at), with_scores: false })
                        }
                    }
                }
            },
        }
    }
}

pub(crate) fn build_zdiff(args: &Vec<Bytes>) -> (r: Result<Command, String>)
    requires
        args.len() > 0,
    ensures
        built(r) == zdiff_spec(contents(args@)),
{
    if args.len() < 3 {
        return Err("wrong number of arguments for 'zdiff' command".to_owned());
    }
    let wanted: i64 = match read_i64(args[1].as_ref()) {
        Some(v) => v,
        None => return Err("value is not an integer or out of range".to_owned()),
    };
    if wanted <= 0 {
        return Err("at least 1 input key is needed for 'zdiff' command".to_owned());
    }
    let numkeys: usize = wanted as usize;
    if numkeys >= args.len() || args.len() - numkeys <= 1 {
        return Err("syntax error".to_owned());
    }
    let at: usize = numkeys + 2;
    if args.len() > at {
        let opt: String = upper(&args[at]);
        if !same_text(&opt, "WITHSCORES") {
            return Err("syntax error".to_owned());
        }
        Ok(Command::Zdiff { keys: keys_between(args, 2, at), with_scores: true })
    } else {
        Ok(Command::Zdiff { keys: keys_between(args, 2, at), with_scores: false })
    }
}

/// What `ZUNION` builds from its arguments.
pub open spec fn zunion_spec(a: Seq<Seq<u8>>, env: &ParseEnv) -> Result<CommandView, Seq<char>> {
    if a.len() < 3 {
        Err("wrong number of arguments for 'zunion' command"@)
    } else {
        match i64_of(a[1]) {
            None => Err("value is not an integer or out of range"@),
            Some(wanted) => {
                if wanted <= 0 {
                    Err("at least 1 input key is needed for 'zunion' command"@)
                } else {
                    let numkeys: usize = wanted as usize;
                    if numkeys >= a.len() || a.len() - numkeys <= 1 {
                        Err("syntax error"@)
                    } else {
                        let at: int = numkeys + 2;
                        let start = Combination::plain();
                        match combine_options(a, env, numkeys, true, start, at) {
                            Err(e) => Err(e),
                            Ok(how) => {
                                Ok(CommandView::Zunion {
                                    keys: a.subrange(2, at),
                                    weights: how.weights,
                                    aggregate: how.aggregate,
                                    with_scores: how.with_scores,
                                })
                            },
                        }
                    }
                }
            },
        }
    }
}

pub(crate) fn build_zunion(args: &Vec<Bytes>, env: &ParseEnv) -> (r: Result<Command, String>)
    requires
        args.len() > 0,
    ensures
        built(r) == zunion_spec(contents(args@), env),
{
    if args.len() < 3 {
        return Err("wrong number of arguments for 'zunion' command".to_owned());
    }
    let wanted: i64 = match read_i64(args[1].as_ref()) {
        Some(v) => v,
        None => return Err("value is not an integer or out of range".to_owned()),
    };
    if wanted <= 0 {
        return Err("at least 1 input key is needed for 'zunion' command".to_owned());
    }
    let numkeys: usize = wanted as usize;
    if numkeys >= args.len() || args.len() - numkeys <= 1 {
        return Err("syntax error".to_owned());
    }
    let at: usize = numkeys + 2;
    let (weights, aggregate, with_scores): (Vec<Double>, Aggregate, bool) = match read_combination(
        args,
        env,
        numkeys,
        true,
        at,
    ) {
        Ok(how) => how,
        Err(e) => return Err(e),
    };
    Ok(Command::Zunion { keys: keys_between(args, 2, at), weights, aggregate, with_scores })
}

/// What `ZINTER` builds from its arguments.
pub open spec fn zinter_spec(a: Seq<Seq<u8>>, env: &ParseEnv) -> Result<CommandView, Seq<char>> {
    if a.len() < 3 {
        Err("wrong number of arguments for 'zinter' command"@)
    } else {
        match i64_of(a[1]) {
            None => Err("value is not an integer or out of range"@),
            Some(wanted) => {
                if wanted <= 0 {
                    Err("at least 1 input key is needed for 'zinter' command"@)
                } else {
                    let numkeys: usize = wanted as usize;
                    if numkeys >= a.len() || a.len() - numkeys <= 1 {
                        Err("syntax error"@)
                    } else {
                        let at: int = numkeys + 2;
                        let start = Combination::plain();
                        match combine_options(a, env, numkeys, true, start, at) {
                            Err(e) => Err(e),
                            Ok(how) => {
                                Ok(CommandView::Zinter {
                                    keys: a.subrange(2, at),
                                    weights: how.weights,
                                    aggregate: how.aggregate,
                                    with_scores: how.with_scores,
                                })
                            },
                        }
                    }
                }
            },
        }
    }
}

pub(crate) fn build_zinter(args: &Vec<Bytes>, env: &ParseEnv) -> (r: Result<Command, String>)
    requires
        args.len() > 0,
    ensures
        built(r) == zinter_spec(contents(args@), env),
{
    if args.len() < 3 {
        return Err("wrong number of arguments for 'zinter' command".to_owned());
    }
    let wanted: i64 = match read_i64(args[1].as_ref()) {
        Some(v) => v,
        None => return Err("value is not an integer or out of range".to_owned()),
    };
    if wanted <= 0 {
        return Err("at least 1 input key is needed for 'zinter' command".to_owned());
    }
    let numkeys: usize = wanted as usize;
    if numkeys >= args.len() || args.len() - numkeys <= 1 {
        return Err("syntax error".to_owned());
    }
    let at: usize = numkeys + 2;
    let (weights, aggregate, with_scores): (Vec<Double>, Aggregate, bool) = match read_combination(
        args,
        env,
        numkeys,
        true,
        at,
    ) {
        Ok(how) => how,
        Err(e) => return Err(e),
    };
    Ok(Command::Zinter { keys: keys_between(args, 2, at), weights, aggregate, with_scores })
}

/// What `ZINTERCARD` makes of its arguments from `i` on, given what came before them.
pub open spec fn zintercard_options(
    a: Seq<Seq<u8>>,
    limit: usize,
    i: int,
) -> Result<usize, Seq<char>>
    decreases a.len() - i,
{
    if i >= a.len() {
        Ok(limit)
    } else {
        let opt = upper_word(a[i]);
        if opt == "LIMIT"@ {
            if a.len() - i <= 1 {
                Err("syntax error"@)
            } else {
                match i64_of(a[i + 1]) {
                    None => Err("LIMIT can't be negative"@),
                    Some(lim) => {
                        if lim < 0 {
                            Err("LIMIT can't be negative"@)
                        } else {
                            let limit: usize = lim as usize;
                            let i: int = i + 2;
                            zintercard_options(a, limit, i)
                        }
                    },
                }
            }
        } else {
            Err("syntax error"@)
        }
    }
}

/// What `ZINTERCARD` builds from its arguments.
pub open spec fn zintercard_spec(a: Seq<Seq<u8>>) -> Result<CommandView, Seq<char>> {
    if a.len() < 3 {
        Err("wrong number of arguments for 'zintercard' command"@)
    } else {
        match i64_of(a[1]) {
            None => Err("value is not an integer or out of range"@),
            Some(wanted) => {
                if wanted <= 0 {
                    Err("at least 1 input key is needed for 'zintercard' command"@)
                } else {
                    let numkeys: usize = wanted as usize;
                    if numkeys >= a.len() || a.len() - numkeys <= 1 {
                        Err("Number of keys can't be greater than number of args"@)
                    } else {
                        let at: int = numkeys + 2;
                        let limit: usize = 0;
                        let i: int = at;
                        match zintercard_options(a, limit, i) {
                            Err(e) => Err(e),
                            Ok(limit) => {
                                Ok(CommandView::Zintercard { keys: a.subrange(2, at), limit })
                            },
                        }
                    }
                }
            },
        }
    }
}

#[verifier::loop_isolation(false)]
pub(crate) fn build_zintercard(args: &Vec<Bytes>) -> (r: Result<Command, String>)
    requires
        args.len() > 0,
    ensures
        built(r) == zintercard_spec(contents(args@)),
{
    if args.len() < 3 {
        return Err("wrong number of arguments for 'zintercard' command".to_owned());
    }
    let wanted: i64 = match read_i64(args[1].as_ref()) {
        Some(v) => v,
        None => return Err("value is not an integer or out of range".to_owned()),
    };
    if wanted <= 0 {
        return Err("at least 1 input key is needed for 'zintercard' command".to_owned());
    }
    let numkeys: usize = wanted as usize;
    if numkeys >= args.len() || args.len() - numkeys <= 1 {
        return Err("Number of keys can't be greater than number of args".to_owned());
    }
    let at: usize = numkeys + 2;
    let mut limit: usize = 0;
    let mut i: usize = at;
    let ghost goal_zintercard_options = zintercard_options(contents(args@), limit, i as int);
    while i < args.len()
        invariant
            i <= args.len(),
            zintercard_options(contents(args@), limit, i as int) == goal_zintercard_options,
        decreases args.len() - i,
    {
        let opt: String = upper(&args[i]);
        if same_text(&opt, "LIMIT") {
            if args.len() - i <= 1 {
                return Err("syntax error".to_owned());
            }
            let lim: i64 = match read_i64(args[i + 1].as_ref()) {
                Some(v) => v,
                None => return Err("LIMIT can't be negative".to_owned()),
            };
            if lim < 0 {
                return Err("LIMIT can't be negative".to_owned());
            }
            limit = lim as usize;
            i = i + 2;
        } else {
            return Err("syntax error".to_owned());
        }
    }
    Ok(Command::Zintercard { keys: keys_between(args, 2, at), limit })
}

/// What `ZMSCORE` builds from its arguments.
pub open spec fn zmscore_spec(a: Seq<Seq<u8>>) -> Result<CommandView, Seq<char>> {
    if a.len() < 3 {
        Err("wrong number of arguments for 'zmscore' command"@)
    } else {
        Ok(CommandView::Zmscore { key: a[1], members: a.skip(2) })
    }
}

pub(crate) fn build_zmscore(args: &Vec<Bytes>) -> (r: Result<Command, String>)
    requires
        args.len() > 0,
    ensures
        built(r) == zmscore_spec(contents(args@)),
{
    if args.len() < 3 {
        return Err("wrong number of arguments for 'zmscore' command".to_owned());
    }
    Ok(Command::Zmscore { key: args[1].clone(), members: keys_from(args, 2) })
}

/// What `ZRANDMEMBER` builds from its arguments.
pub open spec fn zrandmember_spec(a: Seq<Seq<u8>>) -> Result<CommandView, Seq<char>> {
    if a.len() < 2 || a.len() > 4 {
        Err("wrong number of arguments for 'zrandmember' command"@)
    } else if a.len() >= 3 {
        match i64_of(a[2]) {
            None => Err("value is not an integer or out of range"@),
            Some(c) => {
                if c == i64::MIN {
                    Err("value is out of range"@)
                } else if a.len() == 4 {
                    if !spells(a[3], "WITHSCORES"@) {
                        Err("syntax error"@)
                    } else if c < -4611686018427387904 || c > 4611686018427387903 {
                        Err("value is out of range"@)
                    } else {
                        Ok(CommandView::Zrandmember {
                            key: a[1],
                            count: Some(c),
                            with_scores: true,
                        })
                    }
                } else {
                    Ok(CommandView::Zrandmember {
                        key: a[1],
                        count: Some(c),
                        with_scores: false,
                    })
                }
            },
        }
    } else {
        Ok(CommandView::Zrandmember { key: a[1], count: None, with_scores: false })
    }
}

pub(crate) fn build_zrandmember(args: &Vec<Bytes>) -> (r: Result<Command, String>)
    requires
        args.len() > 0,
    ensures
        built(r) == zrandmember_spec(contents(args@)),
{
    if args.len() < 2 || args.len() > 4 {
        return Err("wrong number of arguments for 'zrandmember' command".to_owned());
    }
    if args.len() >= 3 {
        let c: i64 = match read_i64(args[2].as_ref()) {
            Some(v) => v,
            None => return Err("value is not an integer or out of range".to_owned()),
        };
        if c == i64::MIN {
            return Err("value is out of range".to_owned());
        }
        if args.len() == 4 {
            if !spells_word(args[3].as_ref(), "WITHSCORES") {
                return Err("syntax error".to_owned());
            }
            if c < -4611686018427387904 || c > 4611686018427387903 {
                return Err("value is out of range".to_owned());
            }
            Ok(Command::Zrandmember { key: args[1].clone(), count: Some(c), with_scores: true })
        } else {
            Ok(Command::Zrandmember { key: args[1].clone(), count: Some(c), with_scores: false })
        }
    } else {
        Ok(Command::Zrandmember { key: args[1].clone(), count: None, with_scores: false })
    }
}

/// What `ZREMRANGEBYRANK` builds from its arguments.
pub open spec fn zremrangebyrank_spec(a: Seq<Seq<u8>>) -> Result<CommandView, Seq<char>> {
    if a.len() != 4 {
        Err("wrong number of arguments for 'zremrangebyrank' command"@)
    } else {
        match i64_of(a[2]) {
            None => Err("value is not an integer or out of range"@),
            Some(start) => {
                match i64_of(a[3]) {
                    None => Err("value is not an integer or out of range"@),
                    Some(stop) => {
                        Ok(CommandView::Zremrangebyrank { key: a[1], start, stop })
                    },
                }
            },
        }
    }
}

pub(crate) fn build_zremrangebyrank(args: &Vec<Bytes>) -> (r: Result<Command, String>)
    requires
        args.len() > 0,
    ensures
        built(r) == zremrangebyrank_spec(contents(args@)),
{
    if args.len() != 4 {
        return Err("wrong number of arguments for 'zremrangebyrank' command".to_owned());
    }
    let start: i64 = match read_i64(args[2].as_ref()) {
        Some(v) => v,
        None => return Err("value is not an integer or out of range".to_owned()),
    };
    let stop: i64 = match read_i64(args[3].as_ref()) {
        Some(v) => v,
        None => return Err("value is not an integer or out of range".to_owned()),
    };
    Ok(Command::Zremrangebyrank { key: args[1].clone(), start, stop })
}

/// What `ZREMRANGEBYSCORE` builds from its arguments.
pub open spec fn zremrangebyscore_spec(
    a: Seq<Seq<u8>>,
    env: &ParseEnv,
) -> Result<CommandView, Seq<char>> {
    if a.len() != 4 {
        Err("wrong number of arguments for 'zremrangebyscore' command"@)
    } else {
        match score_bound(env, a[2]) {
            Err(e) => Err(e),
            Ok(lo) => {
                match score_bound(env, a[3]) {
                    Err(e) => Err(e),
                    Ok(hi) => {
                        Ok(CommandView::Zremrangebyscore {
                            key: a[1],
                            min_score: lo.0,
                            min_inc: lo.1,
                            max_score: hi.0,
                            max_inc: hi.1,
                        })
                    },
                }
            },
        }
    }
}

pub(crate) fn build_zremrangebyscore(
    args: &Vec<Bytes>,
    env: &ParseEnv,
) -> (r: Result<Command, String>)
    requires
        args.len() > 0,
    ensures
        built(r) == zremrangebyscore_spec(contents(args@), env),
{
    if args.len() != 4 {
        return Err("wrong number of arguments for 'zremrangebyscore' command".to_owned());
    }
    let lo: (Double, bool) = match parse_score_bound(args[2].as_ref(), env) {
        Ok(v) => v,
        Err(e) => return Err(e),
    };
    let hi: (Double, bool) = match parse_score_bound(args[3].as_ref(), env) {
        Ok(v) => v,
        Err(e) => return Err(e),
    };
    Ok(Command::Zremrangebyscore {
        key: args[1].clone(),
        min_score: lo.0,
        min_inc: lo.1,
        max_score: hi.0,
        max_inc: hi.1,
    })
}

/// What `ZREMRANGEBYLEX` builds from its arguments.
pub open spec fn zremrangebylex_spec(a: Seq<Seq<u8>>) -> Result<CommandView, Seq<char>> {
    if a.len() != 4 {
        Err("wrong number of arguments for 'zremrangebylex' command"@)
    } else {
        match lex_bound_spec(a[2]) {
            Err(e) => Err(e),
            Ok(lo) => {
                match lex_bound_spec(a[3]) {
                    Err(e) => Err(e),
                    Ok(hi) => {
                        Ok(CommandView::Zremrangebylex { key: a[1], min: lo, max: hi })
                    },
                }
            },
        }
    }
}

pub(crate) fn build_zremrangebylex(args: &Vec<Bytes>) -> (r: Result<Command, String>)
    requires
        args.len() > 0,
    ensures
        built(r) == zremrangebylex_spec(contents(args@)),
{
    if args.len() != 4 {
        return Err("wrong number of arguments for 'zremrangebylex' command".to_owned());
    }
    let lo: LexBound = match parse_lex_bound(&args[2]) {
        Ok(v) => v,
        Err(e) => return Err(e),
    };
    let hi: LexBound = match parse_lex_bound(&args[3]) {
        Ok(v) => v,
        Err(e) => return Err(e),
    };
    Ok(Command::Zremrangebylex { key: args[1].clone(), min: lo, max: hi })
}

/// What `ZLEXCOUNT` builds from its arguments.
pub open spec fn zlexcount_spec(a: Seq<Seq<u8>>) -> Result<CommandView, Seq<char>> {
    if a.len() != 4 {
        Err("wrong number of arguments for 'zlexcount' command"@)
    } else {
        match lex_bound_spec(a[2]) {
            Err(e) => Err(e),
            Ok(lo) => {
                match lex_bound_spec(a[3]) {
                    Err(e) => Err(e),
                    Ok(hi) => {
                        Ok(CommandView::Zlexcount { key: a[1], min: lo, max: hi })
                    },
                }
            },
        }
    }
}

pub(crate) fn build_zlexcount(args: &Vec<Bytes>) -> (r: Result<Command, String>)
    requires
        args.len() > 0,
    ensures
        built(r) == zlexcount_spec(contents(args@)),
{
    if args.len() != 4 {
        return Err("wrong number of arguments for 'zlexcount' command".to_owned());
    }
    let lo: LexBound = match parse_lex_bound(&args[2]) {
        Ok(v) => v,
        Err(e) => return Err(e),
    };
    let hi: LexBound = match parse_lex_bound(&args[3]) {
        Ok(v) => v,
        Err(e) => return Err(e),
    };
    Ok(Command::Zlexcount { key: args[1].clone(), min: lo, max: hi })
}

/// What `ZSCAN` builds from its arguments.
pub open spec fn zscan_spec(a: Seq<Seq<u8>>) -> Result<CommandView, Seq<char>> {
    if a.len() < 3 {
        Err("wrong number of arguments for 'zscan' command"@)
    } else {
        match usize_of(a[2]) {
            None => Err("value is not an integer or out of range"@),
            Some(cursor) => {
                let pattern: Option<Seq<u8>> = None;
                let count: Option<usize> = None;
                let i: int = 3;
                match walk_options(a, pattern, count, i) {
                    Err(e) => Err(e),
                    Ok((pattern, count)) => {
                        Ok(CommandView::Zscan { key: a[1], cursor, pattern, count })
                    },
                }
            },
        }
    }
}

pub(crate) fn build_zscan(args: &Vec<Bytes>) -> (r: Result<Command, String>)
    requires
        args.len() > 0,
    ensures
        built(r) == zscan_spec(contents(args@)),
{
    if args.len() < 3 {
        return Err("wrong number of arguments for 'zscan' command".to_owned());
    }
    let cursor: usize = match read_usize(args[2].as_ref()) {
        Some(v) => v,
        None => return Err("value is not an integer or out of range".to_owned()),
    };
    let (pattern, count): (Option<Bytes>, Option<usize>) = match read_walk_options(args, 3) {
        Ok(v) => v,
        Err(e) => return Err(e),
    };
    Ok(Command::Zscan { key: args[1].clone(), cursor, pattern, count })
}

/// The commands on sorted sets: the command that `name` stands for among them, if it is one.
pub open spec fn zsets_command_spec(
    name: Seq<char>,
    a: Seq<Seq<u8>>,
    env: &ParseEnv,
) -> Option<Result<CommandView, Seq<char>>> {
    if name == "ZADD"@ {
        Some(zadd_spec(a, env))
    } else if name == "ZREM"@ {
        Some(zrem_spec(a))
    } else if name == "ZSCORE"@ {
        Some(zscore_spec(a))
    } else if name == "ZCARD"@ {
        Some(zcard_spec(a))
    } else if name == "ZRANK"@ {
        Some(zrank_spec(a))
    } else if name == "ZREVRANK"@ {
        Some(zrevrank_spec(a))
    } else if name == "ZCOUNT"@ {
        Some(zcount_spec(a, env))
    } else if name == "ZINCRBY"@ {
        Some(zincrby_spec(a, env))
    } else if name == "ZRANGE"@ {
        Some(zrange_spec(a, env))
    } else if name == "ZREVRANGE"@ {
        Some(zrevrange_spec(a))
    } else if name == "ZRANGEBYSCORE"@ {
        Some(zrangebyscore_spec(a, env))
    } else if name == "ZREVRANGEBYSCORE"@ {
        Some(zrevrangebyscore_spec(a, env))
    } else if name == "ZRANGEBYLEX"@ {
        Some(zrangebylex_spec(a))
    } else if name == "ZREVRANGEBYLEX"@ {
        Some(zrevrangebylex_spec(a))
    } else if name == "ZRANGESTORE"@ {
        Some(zrangestore_spec(a, env))
    } else if name == "ZPOPMIN"@ {
        Some(zpopmin_spec(a))
    } else if name == "ZPOPMAX"@ {
        Some(zpopmax_spec(a))
    } else if name == "BZPOPMIN"@ {
        Some(bzpopmin_spec(a, env))
    } else if name == "BZPOPMAX"@ {
        Some(bzpopmax_spec(a, env))
    } else if name == "ZMPOP"@ {
        Some(zmpop_spec(a))
    } else if name == "BZMPOP"@ {
        Some(bzmpop_spec(a, env))
    } else if name == "ZUNIONSTORE"@ {
        Some(zunionstore_spec(a, env))
    } else if name == "ZINTERSTORE"@ {
        Some(zinterstore_spec(a, env))
    } else if name == "ZDIFFSTORE"@ {
        Some(zdiffstore_spec(a))
    } else if name == "ZDIFF"@ {
        Some(zdiff_spec(a))
    } else if name == "ZUNION"@ {
        Some(zunion_spec(a, env))
    } else if name == "ZINTER"@ {
        Some(zinter_spec(a, env))
    } else if name == "ZINTERCARD"@ {
        Some(zintercard_spec(a))
    } else if name == "ZMSCORE"@ {
        Some(zmscore_spec(a))
    } else if name == "ZRANDMEMBER"@ {
        Some(zrandmember_spec(a))
    } else if name == "ZREMRANGEBYRANK"@ {
        Some(zremrangebyrank_spec(a))
    } else if name == "ZREMRANGEBYSCORE"@ {
        Some(zremrangebyscore_spec(a, env))
    } else if name == "ZREMRANGEBYLEX"@ {
        Some(zremrangebylex_spec(a))
    } else if name == "ZLEXCOUNT"@ {
        Some(zlexcount_spec(a))
    } else if name == "ZSCAN"@ {
        Some(zscan_spec(a))
    } else {
        None
    }
}

pub(crate) fn zsets_command(
    name: &str,
    args: &Vec<Bytes>,
    env: &ParseEnv,
) -> (r: Option<Result<Command, String>>)
    requires
        args.len() > 0,
    ensures
        built_opt(r) == zsets_command_spec(name@, contents(args@), env),
{
    if same_text(name, "ZADD") {
        Some(build_zadd(args, env))
    } else if same_text(name, "ZREM") {
        Some(build_zrem(args))
    } else if same_text(name, "ZSCORE") {
        Some(build_zscore(args))
    } else if same_text(name, "ZCARD") {
        Some(build_zcard(args))
    } else if same_text(name, "ZRANK") {
        Some(build_zrank(args))
    } else if same_text(name, "ZREVRANK") {
        Some(build_zrevrank(args))
    } else if same_text(name, "ZCOUNT") {
        Some(build_zcount(args, env))
    } else if same_text(name, "ZINCRBY") {
        Some(build_zincrby(args, env))
    } else if same_text(name, "ZRANGE") {
        Some(build_zrange(args, env))
    } else if same_text(name, "ZREVRANGE") {
        Some(build_zrevrange(args))
    } else if same_text(name, "ZRANGEBYSCORE") {
        Some(build_zrangebyscore(args, env))
    } else if same_text(name, "ZREVRANGEBYSCORE") {
        Some(build_zrevrangebyscore(args, env))
    } else if same_text(name, "ZRANGEBYLEX") {
        Some(build_zrangebylex(args))
    } else if same_text(name, "ZREVRANGEBYLEX") {
        Some(build_zrevrangebylex(args))
    } else if same_text(name, "ZRANGESTORE") {
        Some(build_zrangestore(args, env))
    } else if same_text(name, "ZPOPMIN") {
        Some(build_zpopmin(args))
    } else if same_text(name, "ZPOPMAX") {
        Some(build_zpopmax(args))
    } else if same_text(name, "BZPOPMIN") {
        Some(build_bzpopmin(args, env))
    } else if same_text(name, "BZPOPMAX") {
        Some(build_bzpopmax(args, env))
    } else if same_text(name, "ZMPOP") {
        Some(build_zmpop(args))
    } else if same_text(name, "BZMPOP") {
        Some(build_bzmpop(args, env))
    } else if same_text(name, "ZUNIONSTORE") {
        Some(build_zunionstore(args, env))
    } else if same_text(name, "ZINTERSTORE") {
        Some(build_zinterstore(args, env))
    } else if same_text(name, "ZDIFFSTORE") {
        Some(build_zdiffstore(args))
    } else if same_text(name, "ZDIFF") {
        Some(build_zdiff(args))
    } else if same_text(name, "ZUNION") {
        Some(build_zunion(args, env))
    } else if same_text(name, "ZINTER") {
        Some(build_zinter(args, env))
    } else if same_text(name, "ZINTERCARD") {
        Some(build_zintercard(args))
    } else if same_text(name, "ZMSCORE") {
        Some(build_zmscore(args))
    } else if same_text(name, "ZRANDMEMBER") {
        Some(build_zrandmember(args))
    } else if same_text(name, "ZREMRANGEBYRANK") {
        Some(build_zremrangebyrank(args))
    } else if same_text(name, "ZREMRANGEBYSCORE") {
        Some(build_zremrangebyscore(args, env))
    } else if same_text(name, "ZREMRANGEBYLEX") {
        Some(build_zremrangebylex(args))
    } else if same_text(name, "ZLEXCOUNT") {
        Some(build_zlexcount(args))
    } else if same_text(name, "ZSCAN") {
        Some(build_zscan(args))
    } else {
        None
    }
}

} // verus!
