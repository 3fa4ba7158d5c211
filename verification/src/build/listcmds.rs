//! Lists.
use bytes::Bytes;
use vstd::prelude::*;
use vstd::utf8::*;

use crate::command::{Command, CommandView, built, built_opt};
use crate::lists::{content_opt, contents, key_list_from, keys_between, keys_from};
use crate::numbers::{hexadecimal_of, i64_of, read_hexadecimal, read_i64, read_usize, usize_of};
use crate::operands::{Double, ListDirection};
use crate::readings::{ParseEnv, checked_timeout, double_of, hex_double_of, read, timeout_spec};
use crate::text::{is_utf8, same_text, spells, spells_word, upper, upper_word};

verus! {

/// How long a blocking pop waits: the text is a numeral, or hexadecimal digits behind `0x`.
pub open spec fn pop_timeout_spec(env: &ParseEnv, b: Seq<u8>) -> Result<Double, Seq<char>> {
    if !valid_utf8(b) {
        Err("timeout is not a float or out of range"@)
    } else if b.len() >= 2 && b[0] == 48 && (b[1] == 120 || b[1] == 88) {
        match hexadecimal_of(b.skip(2)) {
            None => Err("timeout is out of range"@),
            Some(v) => if v > 9223372036854775 {
                Err("timeout is out of range"@)
            } else {
                timeout_spec(hex_double_of(env, b))
            },
        }
    } else {
        timeout_spec(double_of(env, b))
    }
}

pub(crate) fn pop_timeout(env: &ParseEnv, b: &[u8]) -> (r: Result<Double, String>)
    ensures
        read(r) == pop_timeout_spec(env, b@),
{
    if !is_utf8(b) {
        return Err("timeout is not a float or out of range".to_owned());
    }
    if b.len() >= 2 && b[0] == 48 && (b[1] == 120 || b[1] == 88) {
        let digits: &[u8] = vstd::slice::slice_subrange(b, 2, b.len());
        assert(digits@ =~= b@.skip(2));
        match read_hexadecimal(digits) {
            None => Err("timeout is out of range".to_owned()),
            Some(v) => if v > 9223372036854775 {
                Err("timeout is out of range".to_owned())
            } else {
                checked_timeout(env.hex_double(b))
            },
        }
    } else {
        checked_timeout(env.double(b))
    }
}

/// The end of a list that an upper-case word names.
pub open spec fn side_of(word: Seq<char>) -> Option<ListDirection> {
    if word == "LEFT"@ {
        Some(ListDirection::Left)
    } else if word == "RIGHT"@ {
        Some(ListDirection::Right)
    } else {
        None
    }
}

fn read_side(word: &str) -> (r: Option<ListDirection>)
    ensures
        r == side_of(word@),
{
    if same_text(word, "LEFT") {
        Some(ListDirection::Left)
    } else if same_text(word, "RIGHT") {
        Some(ListDirection::Right)
    } else {
        None
    }
}

/// What `LPUSH` builds from its arguments.
pub open spec fn lpush_spec(a: Seq<Seq<u8>>) -> Result<CommandView, Seq<char>> {
    if a.len() < 3 {
        Err("wrong number of arguments for 'lpush' command"@)
    } else {
        Ok(CommandView::Lpush { key: a[1], values: a.skip(2) })
    }
}

pub(crate) fn build_lpush(args: &Vec<Bytes>) -> (r: Result<Command, String>)
    requires
        args.len() > 0,
    ensures
        built(r) == lpush_spec(contents(args@)),
{
    if args.len() < 3 {
        return Err("wrong number of arguments for 'lpush' command".to_owned());
    }
    Ok(Command::Lpush { key: args[1].clone(), values: key_list_from(args, 2) })
}

/// What `RPUSH` builds from its arguments.
pub open spec fn rpush_spec(a: Seq<Seq<u8>>) -> Result<CommandView, Seq<char>> {
    if a.len() < 3 {
        Err("wrong number of arguments for 'rpush' command"@)
    } else {
        Ok(CommandView::Rpush { key: a[1], values: a.skip(2) })
    }
}

pub(crate) fn build_rpush(args: &Vec<Bytes>) -> (r: Result<Command, String>)
    requires
        args.len() > 0,
    ensures
        built(r) == rpush_spec(contents(args@)),
{
    if args.len() < 3 {
        return Err("wrong number of arguments for 'rpush' command".to_owned());
    }
    Ok(Command::Rpush { key: args[1].clone(), values: key_list_from(args, 2) })
}

/// What `LPUSHX` builds from its arguments.
pub open spec fn lpushx_spec(a: Seq<Seq<u8>>) -> Result<CommandView, Seq<char>> {
    if a.len() < 3 {
        Err("wrong number of arguments for 'lpushx' command"@)
    } else {
        Ok(CommandView::Lpushx { key: a[1], values: a.skip(2) })
    }
}

pub(crate) fn build_lpushx(args: &Vec<Bytes>) -> (r: Result<Command, String>)
    requires
        args.len() > 0,
    ensures
        built(r) == lpushx_spec(contents(args@)),
{
    if args.len() < 3 {
        return Err("wrong number of arguments for 'lpushx' command".to_owned());
    }
    Ok(Command::Lpushx { key: args[1].clone(), values: keys_from(args, 2) })
}

/// What `RPUSHX` builds from its arguments.
pub open spec fn rpushx_spec(a: Seq<Seq<u8>>) -> Result<CommandView, Seq<char>> {
    if a.len() < 3 {
        Err("wrong number of arguments for 'rpushx' command"@)
    } else {
        Ok(CommandView::Rpushx { key: a[1], values: a.skip(2) })
    }
}

pub(crate) fn build_rpushx(args: &Vec<Bytes>) -> (r: Result<Command, String>)
    requires
        args.len() > 0,
    ensures
        built(r) == rpushx_spec(contents(args@)),
{
    if args.len() < 3 {
        return Err("wrong number of arguments for 'rpushx' command".to_owned());
    }
    Ok(Command::Rpushx { key: args[1].clone(), values: keys_from(args, 2) })
}

/// What `LPOP` builds from its arguments.
pub open spec fn lpop_spec(a: Seq<Seq<u8>>) -> Result<CommandView, Seq<char>> {
    if a.len() < 2 || a.len() > 3 {
        Err("wrong number of arguments for 'lpop' command"@)
    } else if a.len() > 2 {
        match usize_of(a[2]) {
            None => Err("value is not an integer or out of range"@),
            Some(count) => {
                Ok(CommandView::Lpop { key: a[1], count: Some(count) })
            },
        }
    } else {
        Ok(CommandView::Lpop { key: a[1], count: None })
    }
}

pub(crate) fn build_lpop(args: &Vec<Bytes>) -> (r: Result<Command, String>)
    requires
        args.len() > 0,
    ensures
        built(r) == lpop_spec(contents(args@)),
{
    if args.len() < 2 || args.len() > 3 {
        return Err("wrong number of arguments for 'lpop' command".to_owned());
    }
    if args.len() > 2 {
        let count: usize = match read_usize(args[2].as_ref()) {
            Some(v) => v,
            None => return Err("value is not an integer or out of range".to_owned()),
        };
        Ok(Command::Lpop { key: args[1].clone(), count: Some(count) })
    } else {
        Ok(Command::Lpop { key: args[1].clone(), count: None })
    }
}

/// What `RPOP` builds from its arguments.
pub open spec fn rpop_spec(a: Seq<Seq<u8>>) -> Result<CommandView, Seq<char>> {
    if a.len() < 2 || a.len() > 3 {
        Err("wrong number of arguments for 'rpop' command"@)
    } else if a.len() > 2 {
        match usize_of(a[2]) {
            None => Err("value is not an integer or out of range"@),
            Some(count) => {
                Ok(CommandView::Rpop { key: a[1], count: Some(count) })
            },
        }
    } else {
        Ok(CommandView::Rpop { key: a[1], count: None })
    }
}

pub(crate) fn build_rpop(args: &Vec<Bytes>) -> (r: Result<Command, String>)
    requires
        args.len() > 0,
    ensures
        built(r) == rpop_spec(contents(args@)),
{
    if args.len() < 2 || args.len() > 3 {
        return Err("wrong number of arguments for 'rpop' command".to_owned());
    }
    if args.len() > 2 {
        let count: usize = match read_usize(args[2].as_ref()) {
            Some(v) => v,
            None => return Err("value is not an integer or out of range".to_owned()),
        };
        Ok(Command::Rpop { key: args[1].clone(), count: Some(count) })
    } else {
        Ok(Command::Rpop { key: args[1].clone(), count: None })
    }
}

/// What `LRANGE` builds from its arguments.
pub open spec fn lrange_spec(a: Seq<Seq<u8>>) -> Result<CommandView, Seq<char>> {
    if a.len() != 4 {
        Err("wrong number of arguments for 'lrange' command"@)
    } else {
        match i64_of(a[2]) {
            None => Err("value is not an integer or out of range"@),
            Some(start) => {
                match i64_of(a[3]) {
                    None => Err("value is not an integer or out of range"@),
                    Some(stop) => {
                        Ok(CommandView::Lrange { key: a[1], start, stop })
                    },
                }
            },
        }
    }
}

pub(crate) fn build_lrange(args: &Vec<Bytes>) -> (r: Result<Command, String>)
    requires
        args.len() > 0,
    ensures
        built(r) == lrange_spec(contents(args@)),
{
    if args.len() != 4 {
        return Err("wrong number of arguments for 'lrange' command".to_owned());
    }
    let start: i64 = match read_i64(args[2].as_ref()) {
        Some(v) => v,
        None => return Err("value is not an integer or out of range".to_owned()),
    };
    let stop: i64 = match read_i64(args[3].as_ref()) {
        Some(v) => v,
        None => return Err("value is not an integer or out of range".to_owned()),
    };
    Ok(Command::Lrange { key: args[1].clone(), start, stop })
}

/// What `LLEN` builds from its arguments.
pub open spec fn llen_spec(a: Seq<Seq<u8>>) -> Result<CommandView, Seq<char>> {
    if a.len() != 2 {
        Err("wrong number of arguments for 'llen' command"@)
    } else {
        Ok(CommandView::Llen(a[1]))
    }
}

pub(crate) fn build_llen(args: &Vec<Bytes>) -> (r: Result<Command, String>)
    requires
        args.len() > 0,
    ensures
        built(r) == llen_spec(contents(args@)),
{
    if args.len() != 2 {
        return Err("wrong number of arguments for 'llen' command".to_owned());
    }
    Ok(Command::Llen(args[1].clone()))
}

/// What `LINDEX` builds from its arguments.
pub open spec fn lindex_spec(a: Seq<Seq<u8>>) -> Result<CommandView, Seq<char>> {
    if a.len() != 3 {
        Err("wrong number of arguments for 'lindex' command"@)
    } else {
        match i64_of(a[2]) {
            None => Err("value is not an integer or out of range"@),
            Some(index) => {
                Ok(CommandView::Lindex { key: a[1], index })
            },
        }
    }
}

pub(crate) fn build_lindex(args: &Vec<Bytes>) -> (r: Result<Command, String>)
    requires
        args.len() > 0,
    ensures
        built(r) == lindex_spec(contents(args@)),
{
    if args.len() != 3 {
        return Err("wrong number of arguments for 'lindex' command".to_owned());
    }
    let index: i64 = match read_i64(args[2].as_ref()) {
        Some(v) => v,
        None => return Err("value is not an integer or out of range".to_owned()),
    };
    Ok(Command::Lindex { key: args[1].clone(), index })
}

/// What `BLPOP` builds from its arguments.
pub open spec fn blpop_spec(a: Seq<Seq<u8>>, env: &ParseEnv) -> Result<CommandView, Seq<char>> {
    if a.len() < 3 {
        Err("wrong number of arguments for 'blpop' command"@)
    } else {
        match pop_timeout_spec(env, a[a.len() - 1]) {
            Err(e) => Err(e),
            Ok(timeout) => {
                Ok(CommandView::Blpop { keys: a.subrange(1, a.len() - 1), timeout })
            },
        }
    }
}

pub(crate) fn build_blpop(args: &Vec<Bytes>, env: &ParseEnv) -> (r: Result<Command, String>)
    requires
        args.len() > 0,
    ensures
        built(r) == blpop_spec(contents(args@), env),
{
    if args.len() < 3 {
        return Err("wrong number of arguments for 'blpop' command".to_owned());
    }
    let timeout: Double = match pop_timeout(env, args[args.len() - 1].as_ref()) {
        Ok(v) => v,
        Err(e) => return Err(e),
    };
    Ok(Command::Blpop { keys: keys_between(args, 1, args.len() - 1), timeout })
}

/// What `BRPOP` builds from its arguments.
pub open spec fn brpop_spec(a: Seq<Seq<u8>>, env: &ParseEnv) -> Result<CommandView, Seq<char>> {
    if a.len() < 3 {
        Err("wrong number of arguments for 'brpop' command"@)
    } else {
        match pop_timeout_spec(env, a[a.len() - 1]) {
            Err(e) => Err(e),
            Ok(timeout) => {
                Ok(CommandView::Brpop { keys: a.subrange(1, a.len() - 1), timeout })
            },
        }
    }
}

pub(crate) fn build_brpop(args: &Vec<Bytes>, env: &ParseEnv) -> (r: Result<Command, String>)
    requires
        args.len() > 0,
    ensures
        built(r) == brpop_spec(contents(args@), env),
{
    if args.len() < 3 {
        return Err("wrong number of arguments for 'brpop' command".to_owned());
    }
    let timeout: Double = match pop_timeout(env, args[args.len() - 1].as_ref()) {
        Ok(v) => v,
        Err(e) => return Err(e),
    };
    Ok(Command::Brpop { keys: keys_between(args, 1, args.len() - 1), timeout })
}

/// What `LMPOP` builds from its arguments.
pub open spec fn lmpop_spec(a: Seq<Seq<u8>>) -> Result<CommandView, Seq<char>> {
    if a.len() < 4 {
        Err("wrong number of arguments for 'lmpop' command"@)
    } else {
        match i64_of(a[1]) {
            None => Err("numkeys should be greater than 0"@),
            Some(wanted) => {
                if wanted <= 0 {
                    Err("numkeys should be greater than 0"@)
                } else {
                    let numkeys: usize = wanted as usize;
                    if numkeys >= a.len() || a.len() - numkeys <= 2 {
                        Err("syntax error"@)
                    } else {
                        let at: int = numkeys + 2;
                        let side = upper_word(a[at]);
                        if side != "LEFT"@ && side != "RIGHT"@ {
                            Err("syntax error"@)
                        } else if a.len() - at > 1 {
                            if a.len() - at != 3 {
                                Err("syntax error"@)
                            } else if !spells(a[at + 1], "COUNT"@) {
                                Err("syntax error"@)
                            } else {
                                match i64_of(a[at + 2]) {
                                    None => Err("count should be greater than 0"@),
                                    Some(c) => {
                                        if c <= 0 {
                                            Err("count should be greater than 0"@)
                                        } else if side == "LEFT"@ {
                                            Ok(CommandView::Lmpop {
                                                keys: a.subrange(2, at),
                                                where_from: ListDirection::Left,
                                                count: c as usize,
                                            })
                                        } else {
                                            Ok(CommandView::Lmpop {
                                                keys: a.subrange(2, at),
                                                where_from: ListDirection::Right,
                                                count: c as usize,
                                            })
                                        }
                                    },
                                }
                            }
                        } else if side == "LEFT"@ {
                            Ok(CommandView::Lmpop {
                                keys: a.subrange(2, at),
                                where_from: ListDirection::Left,
                                count: 1,
                            })
                        } else {
                            Ok(CommandView::Lmpop {
                                keys: a.subrange(2, at),
                                where_from: ListDirection::Right,
                                count: 1,
                            })
                        }
                    }
                }
            },
        }
    }
}

pub(crate) fn build_lmpop(args: &Vec<Bytes>) -> (r: Result<Command, String>)
    requires
        args.len() > 0,
    ensures
        built(r) == lmpop_spec(contents(args@)),
{
    if args.len() < 4 {
        return Err("wrong number of arguments for 'lmpop' command".to_owned());
    }
    let wanted: i64 = match read_i64(args[1].as_ref()) {
        Some(v) => v,
        None => return Err("numkeys should be greater than 0".to_owned()),
    };
    if wanted <= 0 {
        return Err("numkeys should be greater than 0".to_owned());
    }
    let numkeys: usize = wanted as usize;
    if numkeys >= args.len() || args.len() - numkeys <= 2 {
        return Err("syntax error".to_owned());
    }
    let at: usize = numkeys + 2;
    let side: String = upper(&args[at]);
    if !same_text(&side, "LEFT") && !same_text(&side, "RIGHT") {
        return Err("syntax error".to_owned());
    }
    if args.len() - at > 1 {
        if args.len() - at != 3 {
            return Err("syntax error".to_owned());
        }
        if !spells_word(args[at + 1].as_ref(), "COUNT") {
            return Err("syntax error".to_owned());
        }
        let c: i64 = match read_i64(args[at + 2].as_ref()) {
            Some(v) => v,
            None => return Err("count should be greater than 0".to_owned()),
        };
        if c <= 0 {
            return Err("count should be greater than 0".to_owned());
        }
        if same_text(&side, "LEFT") {
            Ok(Command::Lmpop {
                keys: keys_between(args, 2, at),
                where_from: ListDirection::Left,
                count: c as usize,
            })
        } else {
            Ok(Command::Lmpop {
                keys: keys_between(args, 2, at),
                where_from: ListDirection::Right,
                count: c as usize,
            })
        }
    } else if same_text(&side, "LEFT") {
        Ok(Command::Lmpop {
            keys: keys_between(args, 2, at),
            where_from: ListDirection::Left,
            count: 1,
        })
    } else {
        Ok(Command::Lmpop {
            keys: keys_between(args, 2, at),
            where_from: ListDirection::Right,
            count: 1,
        })
    }
}

/// What `BLMPOP` builds from its arguments.
pub open spec fn blmpop_spec(a: Seq<Seq<u8>>, env: &ParseEnv) -> Result<CommandView, Seq<char>> {
    if a.len() < 5 {
        Err("wrong number of arguments for 'blmpop' command"@)
    } else {
        match timeout_spec(double_of(env, a[1])) {
            Err(e) => Err(e),
            Ok(timeout) => {
                match i64_of(a[2]) {
                    None => Err("numkeys should be greater than 0"@),
                    Some(wanted) => {
                        if wanted <= 0 {
                            Err("numkeys should be greater than 0"@)
                        } else {
                            let numkeys: usize = wanted as usize;
                            if numkeys >= a.len() || a.len() - numkeys <= 3 {
                                Err("syntax error"@)
                            } else {
                                let at: int = numkeys + 3;
                                let side = upper_word(a[at]);
                                if side != "LEFT"@ && side != "RIGHT"@ {
                                    Err("syntax error"@)
                                } else if a.len() - at > 1 {
                                    if a.len() - at != 3 {
                                        Err("syntax error"@)
                                    } else if !spells(a[at + 1], "COUNT"@) {
                                        Err("syntax error"@)
                                    } else {
                                        match i64_of(a[at + 2]) {
                                            None => Err("count should be greater than 0"@),
                                            Some(c) => {
                                                if c <= 0 {
                                                    Err("count should be greater than 0"@)
                                                } else if side == "LEFT"@ {
                                                    Ok(CommandView::Blmpop {
                                                        timeout,
                                                        keys: a.subrange(3, at),
                                                        where_from: ListDirection::Left,
                                                        count: c as usize,
                                                    })
                                                } else {
                                                    Ok(CommandView::Blmpop {
                                                        timeout,
                                                        keys: a.subrange(3, at),
                                                        where_from: ListDirection::Right,
                                                        count: c as usize,
                                                    })
                                                }
                                            },
                                        }
                                    }
                                } else if side == "LEFT"@ {
                                    Ok(CommandView::Blmpop {
                                        timeout,
                                        keys: a.subrange(3, at),
                                        where_from: ListDirection::Left,
                                        count: 1,
                                    })
                                } else {
                                    Ok(CommandView::Blmpop {
                                        timeout,
                                        keys: a.subrange(3, at),
                                        where_from: ListDirection::Right,
                                        count: 1,
                                    })
                                }
                            }
                        }
                    },
                }
            },
        }
    }
}

pub(crate) fn build_blmpop(args: &Vec<Bytes>, env: &ParseEnv) -> (r: Result<Command, String>)
    requires
        args.len() > 0,
    ensures
        built(r) == blmpop_spec(contents(args@), env),
{
    if args.len() < 5 {
        return Err("wrong number of arguments for 'blmpop' command".to_owned());
    }
    let timeout: Double = match checked_timeout(env.double(args[1].as_ref())) {
        Ok(v) => v,
        Err(e) => return Err(e),
    };
    let wanted: i64 = match read_i64(args[2].as_ref()) {
        Some(v) => v,
        None => return Err("numkeys should be greater than 0".to_owned()),
    };
    if wanted <= 0 {
        return Err("numkeys should be greater than 0".to_owned());
    }
    let numkeys: usize = wanted as usize;
    if numkeys >= args.len() || args.len() - numkeys <= 3 {
        return Err("syntax error".to_owned());
    }
    let at: usize = numkeys + 3;
    let side: String = upper(&args[at]);
    if !same_text(&side, "LEFT") && !same_text(&side, "RIGHT") {
        return Err("syntax error".to_owned());
    }
    if args.len() - at > 1 {
        if args.len() - at != 3 {
            return Err("syntax error".to_owned());
        }
        if !spells_word(args[at + 1].as_ref(), "COUNT") {
            return Err("syntax error".to_owned());
        }
        let c: i64 = match read_i64(args[at + 2].as_ref()) {
            Some(v) => v,
            None => return Err("count should be greater than 0".to_owned()),
        };
        if c <= 0 {
            return Err("count should be greater than 0".to_owned());
        }
        if same_text(&side, "LEFT") {
            Ok(Command::Blmpop {
                timeout,
                keys: keys_between(args, 3, at),
                where_from: ListDirection::Left,
                count: c as usize,
            })
        } else {
            Ok(Command::Blmpop {
                timeout,
                keys: keys_between(args, 3, at),
                where_from: ListDirection::Right,
                count: c as usize,
            })
        }
    } else if same_text(&side, "LEFT") {
        Ok(Command::Blmpop {
            timeout,
            keys: keys_between(args, 3, at),
            where_from: ListDirection::Left,
            count: 1,
        })
    } else {
        Ok(Command::Blmpop {
            timeout,
            keys: keys_between(args, 3, at),
            where_from: ListDirection::Right,
            count: 1,
        })
    }
}

/// What `LTRIM` builds from its arguments.
pub open spec fn ltrim_spec(a: Seq<Seq<u8>>) -> Result<CommandView, Seq<char>> {
    if a.len() != 4 {
        Err("wrong number of arguments for 'ltrim' command"@)
    } else {
        match i64_of(a[2]) {
            None => Err("value is not an integer or out of range"@),
            Some(start) => {
                match i64_of(a[3]) {
                    None => Err("value is not an integer or out of range"@),
                    Some(stop) => {
                        Ok(CommandView::Ltrim { key: a[1], start, stop })
                    },
                }
            },
        }
    }
}

pub(crate) fn build_ltrim(args: &Vec<Bytes>) -> (r: Result<Command, String>)
    requires
        args.len() > 0,
    ensures
        built(r) == ltrim_spec(contents(args@)),
{
    if args.len() != 4 {
        return Err("wrong number of arguments for 'ltrim' command".to_owned());
    }
    let start: i64 = match read_i64(args[2].as_ref()) {
        Some(v) => v,
        None => return Err("value is not an integer or out of range".to_owned()),
    };
    let stop: i64 = match read_i64(args[3].as_ref()) {
        Some(v) => v,
        None => return Err("value is not an integer or out of range".to_owned()),
    };
    Ok(Command::Ltrim { key: args[1].clone(), start, stop })
}

/// What `LSET` builds from its arguments.
pub open spec fn lset_spec(a: Seq<Seq<u8>>) -> Result<CommandView, Seq<char>> {
    if a.len() != 4 {
        Err("wrong number of arguments for 'lset' command"@)
    } else {
        match i64_of(a[2]) {
            None => Err("value is not an integer or out of range"@),
            Some(index) => {
                Ok(CommandView::Lset { key: a[1], index, element: a[3] })
            },
        }
    }
}

pub(crate) fn build_lset(args: &Vec<Bytes>) -> (r: Result<Command, String>)
    requires
        args.len() > 0,
    ensures
        built(r) == lset_spec(contents(args@)),
{
    if args.len() != 4 {
        return Err("wrong number of arguments for 'lset' command".to_owned());
    }
    let index: i64 = match read_i64(args[2].as_ref()) {
        Some(v) => v,
        None => return Err("value is not an integer or out of range".to_owned()),
    };
    Ok(Command::Lset { key: args[1].clone(), index, element: args[3].clone() })
}

/// What `LREM` builds from its arguments.
pub open spec fn lrem_spec(a: Seq<Seq<u8>>) -> Result<CommandView, Seq<char>> {
    if a.len() != 4 {
        Err("wrong number of arguments for 'lrem' command"@)
    } else {
        match i64_of(a[2]) {
            None => Err("value is not an integer or out of range"@),
            Some(count) => {
                Ok(CommandView::Lrem { key: a[1], count, element: a[3] })
            },
        }
    }
}

pub(crate) fn build_lrem(args: &Vec<Bytes>) -> (r: Result<Command, String>)
    requires
        args.len() > 0,
    ensures
        built(r) == lrem_spec(contents(args@)),
{
    if args.len() != 4 {
        return Err("wrong number of arguments for 'lrem' command".to_owned());
    }
    let count: i64 = match read_i64(args[2].as_ref()) {
        Some(v) => v,
        None => return Err("value is not an integer or out of range".to_owned()),
    };
    Ok(Command::Lrem { key: args[1].clone(), count, element: args[3].clone() })
}

/// What `LPOS` makes of its arguments from `i` on, given what came before them.
pub open spec fn lpos_options(
    a: Seq<Seq<u8>>,
    rank: Option<i64>,
    count: Option<usize>,
    maxlen: Option<usize>,
    i: int,
) -> Result<(Option<i64>, Option<usize>, Option<usize>), Seq<char>>
    decreases a.len() - i,
{
    if i >= a.len() {
        Ok((rank, count, maxlen))
    } else {
        let opt = upper_word(a[i]);
        if opt == "RANK"@ {
            if a.len() - i <= 1 {
                Err("syntax error"@)
            } else {
                match i64_of(a[i + 1]) {
                    None => Err("value is not an integer or out of range"@),
                    Some(r) => {
                        if r == i64::MIN {
                            Err("value is out of range"@)
                        } else if r == 0 {
                            Err("RANK can't be zero: use 1 to start from the first match, 2 from the second ... or use negative to start from the end of the list"@)
                        } else {
                            let rank = Some(r);
                            let i: int = i + 2;
                            lpos_options(a, rank, count, maxlen, i)
                        }
                    },
                }
            }
        } else if opt == "COUNT"@ {
            if a.len() - i <= 1 {
                Err("syntax error"@)
            } else {
                match usize_of(a[i + 1]) {
                    None => Err("value is not an integer or out of range"@),
                    Some(c) => {
                        let count = Some(c);
                        let i: int = i + 2;
                        lpos_options(a, rank, count, maxlen, i)
                    },
                }
            }
        } else if opt == "MAXLEN"@ {
            if a.len() - i <= 1 {
                Err("syntax error"@)
            } else {
                match usize_of(a[i + 1]) {
                    None => Err("value is not an integer or out of range"@),
                    Some(m) => {
                        let maxlen = Some(m);
                        let i: int = i + 2;
                        lpos_options(a, rank, count, maxlen, i)
                    },
                }
            }
        } else {
            Err("syntax error"@)
        }
    }
}

/// What `LPOS` builds from its arguments.
pub open spec fn lpos_spec(a: Seq<Seq<u8>>) -> Result<CommandView, Seq<char>> {
    if a.len() < 3 {
        Err("wrong number of arguments for 'lpos' command"@)
    } else {
        let rank: Option<i64> = None;
        let count: Option<usize> = None;
        let maxlen: Option<usize> = None;
        let i: int = 3;
        match lpos_options(a, rank, count, maxlen, i) {
            Err(e) => Err(e),
            Ok((rank, count, maxlen)) => {
                Ok(CommandView::Lpos { key: a[1], element: a[2], rank, count, maxlen })
            },
        }
    }
}

#[verifier::loop_isolation(false)]
pub(crate) fn build_lpos(args: &Vec<Bytes>) -> (r: Result<Command, String>)
    requires
        args.len() > 0,
    ensures
        built(r) == lpos_spec(contents(args@)),
{
    if args.len() < 3 {
        return Err("wrong number of arguments for 'lpos' command".to_owned());
    }
    let mut rank: Option<i64> = None;
    let mut count: Option<usize> = None;
    let mut maxlen: Option<usize> = None;
    let mut i: usize = 3;
    let ghost goal_lpos_options = lpos_options(contents(args@), rank, count, maxlen, i as int);
    while i < args.len()
        invariant
            i <= args.len(),
            lpos_options(contents(args@), rank, count, maxlen, i as int) == goal_lpos_options,
        decreases args.len() - i,
    {
        let opt: String = upper(&args[i]);
        if same_text(&opt, "RANK") {
            if args.len() - i <= 1 {
                return Err("syntax error".to_owned());
            }
            let r: i64 = match read_i64(args[i + 1].as_ref()) {
                Some(v) => v,
                None => return Err("value is not an integer or out of range".to_owned()),
            };
            if r == i64::MIN {
                return Err("value is out of range".to_owned());
            }
            if r == 0 {
                return Err("RANK can't be zero: use 1 to start from the first match, 2 from the second ... or use negative to start from the end of the list".to_owned());
            }
            rank = Some(r);
            i = i + 2;
        } else if same_text(&opt, "COUNT") {
            if args.len() - i <= 1 {
                return Err("syntax error".to_owned());
            }
            let c: usize = match read_usize(args[i + 1].as_ref()) {
                Some(v) => v,
                None => return Err("value is not an integer or out of range".to_owned()),
            };
            count = Some(c);
            i = i + 2;
        } else if same_text(&opt, "MAXLEN") {
            if args.len() - i <= 1 {
                return Err("syntax error".to_owned());
            }
            let m: usize = match read_usize(args[i + 1].as_ref()) {
                Some(v) => v,
                None => return Err("value is not an integer or out of range".to_owned()),
            };
            maxlen = Some(m);
            i = i + 2;
        } else {
            return Err("syntax error".to_owned());
        }
    }
    Ok(Command::Lpos { key: args[1].clone(), element: args[2].clone(), rank, count, maxlen })
}

/// What `LINSERT` builds from its arguments.
pub open spec fn linsert_spec(a: Seq<Seq<u8>>) -> Result<CommandView, Seq<char>> {
    if a.len() != 5 {
        Err("wrong number of arguments for 'linsert' command"@)
    } else {
        let side = upper_word(a[2]);
        if side != "BEFORE"@ && side != "AFTER"@ {
            Err("syntax error"@)
        } else {
            Ok(CommandView::Linsert {
                key: a[1],
                before: side == "BEFORE"@,
                pivot: a[3],
                element: a[4],
            })
        }
    }
}

pub(crate) fn build_linsert(args: &Vec<Bytes>) -> (r: Result<Command, String>)
    requires
        args.len() > 0,
    ensures
        built(r) == linsert_spec(contents(args@)),
{
    if args.len() != 5 {
        return Err("wrong number of arguments for 'linsert' command".to_owned());
    }
    let side: String = upper(&args[2]);
    if !same_text(&side, "BEFORE") && !same_text(&side, "AFTER") {
        return Err("syntax error".to_owned());
    }
    Ok(Command::Linsert {
        key: args[1].clone(),
        before: same_text(&side, "BEFORE"),
        pivot: args[3].clone(),
        element: args[4].clone(),
    })
}

/// What `LMOVE` builds from its arguments.
pub open spec fn lmove_spec(a: Seq<Seq<u8>>) -> Result<CommandView, Seq<char>> {
    if a.len() != 5 {
        Err("wrong number of arguments for 'lmove' command"@)
    } else {
        match side_of(upper_word(a[3])) {
            None => Err("syntax error"@),
            Some(where_from) => {
                match side_of(upper_word(a[4])) {
                    None => Err("syntax error"@),
                    Some(where_to) => {
                        Ok(CommandView::Lmove {
                            source: a[1],
                            destination: a[2],
                            where_from,
                            where_to,
                        })
                    },
                }
            },
        }
    }
}

pub(crate) fn build_lmove(args: &Vec<Bytes>) -> (r: Result<Command, String>)
    requires
        args.len() > 0,
    ensures
        built(r) == lmove_spec(contents(args@)),
{
    if args.len() != 5 {
        return Err("wrong number of arguments for 'lmove' command".to_owned());
    }
    let where_from: ListDirection = match read_side(upper(&args[3]).as_str()) {
        Some(v) => v,
        None => return Err("syntax error".to_owned()),
    };
    let where_to: ListDirection = match read_side(upper(&args[4]).as_str()) {
        Some(v) => v,
        None => return Err("syntax error".to_owned()),
    };
    Ok(Command::Lmove {
        source: args[1].clone(),
        destination: args[2].clone(),
        where_from,
        where_to,
    })
}

/// What `BLMOVE` builds from its arguments.
pub open spec fn blmove_spec(a: Seq<Seq<u8>>, env: &ParseEnv) -> Result<CommandView, Seq<char>> {
    if a.len() != 6 {
        Err("wrong number of arguments for 'blmove' command"@)
    } else {
        match side_of(upper_word(a[3])) {
            None => Err("syntax error"@),
            Some(where_from) => {
                match side_of(upper_word(a[4])) {
                    None => Err("syntax error"@),
                    Some(where_to) => {
                        match timeout_spec(double_of(env, a[5])) {
                            Err(e) => Err(e),
                            Ok(timeout) => {
                                Ok(CommandView::Blmove {
                                    source: a[1],
                                    destination: a[2],
                                    where_from,
                                    where_to,
                                    timeout,
                                })
                            },
                        }
                    },
                }
            },
        }
    }
}

pub(crate) fn build_blmove(args: &Vec<Bytes>, env: &ParseEnv) -> (r: Result<Command, String>)
    requires
        args.len() > 0,
    ensures
        built(r) == blmove_spec(contents(args@), env),
{
    if args.len() != 6 {
        return Err("wrong number of arguments for 'blmove' command".to_owned());
    }
    let where_from: ListDirection = match read_side(upper(&args[3]).as_str()) {
        Some(v) => v,
        None => return Err("syntax error".to_owned()),
    };
    let where_to: ListDirection = match read_side(upper(&args[4]).as_str()) {
        Some(v) => v,
        None => return Err("syntax error".to_owned()),
    };
    let timeout: Double = match checked_timeout(env.double(args[5].as_ref())) {
        Ok(v) => v,
        Err(e) => return Err(e),
    };
    Ok(Command::Blmove {
        source: args[1].clone(),
        destination: args[2].clone(),
        where_from,
        where_to,
        timeout,
    })
}

/// What `RPOPLPUSH` builds from its arguments.
pub open spec fn rpoplpush_spec(a: Seq<Seq<u8>>) -> Result<CommandView, Seq<char>> {
    if a.len() != 3 {
        Err("wrong number of arguments for 'rpoplpush' command"@)
    } else {
        Ok(CommandView::Lmove {
            source: a[1],
            destination: a[2],
            where_from: ListDirection::Right,
            where_to: ListDirection::Left,
        })
    }
}

pub(crate) fn build_rpoplpush(args: &Vec<Bytes>) -> (r: Result<Command, String>)
    requires
        args.len() > 0,
    ensures
        built(r) == rpoplpush_spec(contents(args@)),
{
    if args.len() != 3 {
        return Err("wrong number of arguments for 'rpoplpush' command".to_owned());
    }
    Ok(Command::Lmove {
        source: args[1].clone(),
        destination: args[2].clone(),
        where_from: ListDirection::Right,
        where_to: ListDirection::Left,
    })
}

/// What `BRPOPLPUSH` builds from its arguments.
pub open spec fn brpoplpush_spec(
    a: Seq<Seq<u8>>,
    env: &ParseEnv,
) -> Result<CommandView, Seq<char>> {
    if a.len() != 4 {
        Err("wrong number of arguments for 'brpoplpush' command"@)
    } else {
        match timeout_spec(double_of(env, a[3])) {
            Err(e) => Err(e),
            Ok(timeout) => {
                Ok(CommandView::Blmove {
                    source: a[1],
                    destination: a[2],
                    where_from: ListDirection::Right,
                    where_to: ListDirection::Left,
                    timeout,
                })
            },
        }
    }
}

pub(crate) fn build_brpoplpush(args: &Vec<Bytes>, env: &ParseEnv) -> (r: Result<Command, String>)
    requires
        args.len() > 0,
    ensures
        built(r) == brpoplpush_spec(contents(args@), env),
{
    if args.len() != 4 {
        return Err("wrong number of arguments for 'brpoplpush' command".to_owned());
    }
    let timeout: Double = match checked_timeout(env.double(args[3].as_ref())) {
        Ok(v) => v,
        Err(e) => return Err(e),
    };
    Ok(Command::Blmove {
        source: args[1].clone(),
        destination: args[2].clone(),
        where_from: ListDirection::Right,
        where_to: ListDirection::Left,
        timeout,
    })
}

/// What `SORT` / `SORT_RO` makes of its arguments from `i` on, given what came before them.
pub open spec fn sort_options(
    a: Seq<Seq<u8>>,
    desc: bool,
    alpha: bool,
    store: Option<Seq<u8>>,
    limit: Option<(i64, i64)>,
    i: int,
) -> Result<(bool, bool, Option<Seq<u8>>, Option<(i64, i64)>), Seq<char>>
    decreases a.len() - i,
{
    if i >= a.len() {
        Ok((desc, alpha, store, limit))
    } else {
        let opt = upper_word(a[i]);
        if opt == "ASC"@ {
            let desc = false;
            let i: int = i + 1;
            sort_options(a, desc, alpha, store, limit, i)
        } else if opt == "DESC"@ {
            let desc = true;
            let i: int = i + 1;
            sort_options(a, desc, alpha, store, limit, i)
        } else if opt == "ALPHA"@ {
            let alpha = true;
            let i: int = i + 1;
            sort_options(a, desc, alpha, store, limit, i)
        } else if opt == "STORE"@ {
            if a.len() - i <= 1 {
                Err("syntax error"@)
            } else {
                let store = Some(a[i + 1]);
                let i: int = i + 2;
                sort_options(a, desc, alpha, store, limit, i)
            }
        } else if opt == "LIMIT"@ {
            if a.len() - i <= 2 {
                Err("syntax error"@)
            } else {
                match i64_of(a[i + 1]) {
                    None => Err("value is not an integer or out of range"@),
                    Some(offset) => {
                        match i64_of(a[i + 2]) {
                            None => Err("value is not an integer or out of range"@),
                            Some(count) => {
                                let limit = Some((offset, count));
                                let i: int = i + 3;
                                sort_options(a, desc, alpha, store, limit, i)
                            },
                        }
                    },
                }
            }
        } else {
            let i: int = i + 1;
            sort_options(a, desc, alpha, store, limit, i)
        }
    }
}

/// What `SORT` / `SORT_RO` builds from its arguments.
pub open spec fn sort_spec(a: Seq<Seq<u8>>) -> Result<CommandView, Seq<char>> {
    if a.len() < 2 {
        Err("wrong number of arguments for 'sort' command"@)
    } else {
        let desc = false;
        let alpha = false;
        let store: Option<Seq<u8>> = None;
        let limit: Option<(i64, i64)> = None;
        let i: int = 2;
        match sort_options(a, desc, alpha, store, limit, i) {
            Err(e) => Err(e),
            Ok((desc, alpha, store, limit)) => {
                Ok(CommandView::Sort { key: a[1], desc, alpha, store, limit })
            },
        }
    }
}

#[verifier::loop_isolation(false)]
pub(crate) fn build_sort(args: &Vec<Bytes>) -> (r: Result<Command, String>)
    requires
        args.len() > 0,
    ensures
        built(r) == sort_spec(contents(args@)),
{
    if args.len() < 2 {
        return Err("wrong number of arguments for 'sort' command".to_owned());
    }
    let mut desc: bool = false;
    let mut alpha: bool = false;
    let mut store: Option<Bytes> = None;
    let mut limit: Option<(i64, i64)> = None;
    let mut i: usize = 2;
    let ghost goal_sort_options = sort_options(
        contents(args@),
        desc,
        alpha,
        content_opt(store),
        limit,
        i as int,
    );
    while i < args.len()
        invariant
            i <= args.len(),
            sort_options(
                contents(args@),
                desc,
                alpha,
                content_opt(store),
                limit,
                i as int,
            ) == goal_sort_options,
        decreases args.len() - i,
    {
        let opt: String = upper(&args[i]);
        if same_text(&opt, "ASC") {
            desc = false;
            i = i + 1;
        } else if same_text(&opt, "DESC") {
            desc = true;
            i = i + 1;
        } else if same_text(&opt, "ALPHA") {
            alpha = true;
            i = i + 1;
        } else if same_text(&opt, "STORE") {
            if args.len() - i <= 1 {
                return Err("syntax error".to_owned());
            }
            store = Some(args[i + 1].clone());
            i = i + 2;
        } else if same_text(&opt, "LIMIT") {
            if args.len() - i <= 2 {
                return Err("syntax error".to_owned());
            }
            let offset: i64 = match read_i64(args[i + 1].as_ref()) {
                Some(v) => v,
                None => return Err("value is not an integer or out of range".to_owned()),
            };
            let count: i64 = match read_i64(args[i + 2].as_ref()) {
                Some(v) => v,
                None => return Err("value is not an integer or out of range".to_owned()),
            };
            limit = Some((offset, count));
            i = i + 3;
        } else {
            i = i + 1;
        }
    }
    Ok(Command::Sort { key: args[1].clone(), desc, alpha, store, limit })
}

/// The commands on lists: the command that `name` stands for among them, if it is one.
pub open spec fn listcmds_command_spec(
    name: Seq<char>,
    a: Seq<Seq<u8>>,
    env: &ParseEnv,
) -> Option<Result<CommandView, Seq<char>>> {
    if name == "LPUSH"@ {
        Some(lpush_spec(a))
    } else if name == "RPUSH"@ {
        Some(rpush_spec(a))
    } else if name == "LPUSHX"@ {
        Some(lpushx_spec(a))
    } else if name == "RPUSHX"@ {
        Some(rpushx_spec(a))
    } else if name == "LPOP"@ {
        Some(lpop_spec(a))
    } else if name == "RPOP"@ {
        Some(rpop_spec(a))
    } else if name == "LRANGE"@ {
        Some(lrange_spec(a))
    } else if name == "LLEN"@ {
        Some(llen_spec(a))
    } else if name == "LINDEX"@ {
        Some(lindex_spec(a))
    } else if name == "BLPOP"@ {
        Some(blpop_spec(a, env))
    } else if name == "BRPOP"@ {
        Some(brpop_spec(a, env))
    } else if name == "LMPOP"@ {
        Some(lmpop_spec(a))
    } else if name == "BLMPOP"@ {
        Some(blmpop_spec(a, env))
    } else if name == "LTRIM"@ {
        Some(ltrim_spec(a))
    } else if name == "LSET"@ {
        Some(lset_spec(a))
    } else if name == "LREM"@ {
        Some(lrem_spec(a))
    } else if name == "LPOS"@ {
        Some(lpos_spec(a))
    } else if name == "LINSERT"@ {
        Some(linsert_spec(a))
    } else if name == "LMOVE"@ {
        Some(lmove_spec(a))
    } else if name == "BLMOVE"@ {
        Some(blmove_spec(a, env))
    } else if name == "RPOPLPUSH"@ {
        Some(rpoplpush_spec(a))
    } else if name == "BRPOPLPUSH"@ {
        Some(brpoplpush_spec(a, env))
    } else if name == "SORT"@ || name == "SORT_RO"@ {
        Some(sort_spec(a))
    } else {
        None
    }
}

pub(crate) fn listcmds_command(
    name: &str,
    args: &Vec<Bytes>,
    env: &ParseEnv,
) -> (r: Option<Result<Command, String>>)
    requires
        args.len() > 0,
    ensures
        built_opt(r) == listcmds_command_spec(name@, contents(args@), env),
{
    if same_text(name, "LPUSH") {
        Some(build_lpush(args))
    } else if same_text(name, "RPUSH") {
        Some(build_rpush(args))
    } else if same_text(name, "LPUSHX") {
        Some(build_lpushx(args))
    } else if same_text(name, "RPUSHX") {
        Some(build_rpushx(args))
    } else if same_text(name, "LPOP") {
        Some(build_lpop(args))
    } else if same_text(name, "RPOP") {
        Some(build_rpop(args))
    } else if same_text(name, "LRANGE") {
        Some(build_lrange(args))
    } else if same_text(name, "LLEN") {
        Some(build_llen(args))
    } else if same_text(name, "LINDEX") {
        Some(build_lindex(args))
    } else if same_text(name, "BLPOP") {
        Some(build_blpop(args, env))
    } else if same_text(name, "BRPOP") {
        Some(build_brpop(args, env))
    } else if same_text(name, "LMPOP") {
        Some(build_lmpop(args))
    } else if same_text(name, "BLMPOP") {
        Some(build_blmpop(args, env))
    } else if same_text(name, "LTRIM") {
        Some(build_ltrim(args))
    } else if same_text(name, "LSET") {
        Some(build_lset(args))
    } else if same_text(name, "LREM") {
        Some(build_lrem(args))
    } else if same_text(name, "LPOS") {
        Some(build_lpos(args))
    } else if same_text(name, "LINSERT") {
        Some(build_linsert(args))
    } else if same_text(name, "LMOVE") {
        Some(build_lmove(args))
    } else if same_text(name, "BLMOVE") {
        Some(build_blmove(args, env))
    } else if same_text(name, "RPOPLPUSH") {
        Some(build_rpoplpush(args))
    } else if same_text(name, "BRPOPLPUSH") {
        Some(build_brpoplpush(args, env))
    } else if same_text(name, "SORT") || same_text(name, "SORT_RO") {
        Some(build_sort(args))
    } else {
        None
    }
}

} // verus!
