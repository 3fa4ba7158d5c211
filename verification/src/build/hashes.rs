//! Hashes.
use bytes::Bytes;
use vstd::prelude::*;

use crate::command::{Command, CommandView, built, built_opt};
use crate::lists::{content_opt, contents, keys_from, pair_list_from, paired};
use crate::numbers::{i64_of, read_i64, read_usize, usize_of};
use crate::operands::Double;
use crate::readings::{ParseEnv, redis_double, redis_double_of};
use crate::text::{same_text, spells, spells_word, upper, upper_word};
use super::walks::{read_walk_options, walk_options};

verus! {

/// What `HSET` builds from its arguments.
pub open spec fn hset_spec(a: Seq<Seq<u8>>) -> Result<CommandView, Seq<char>> {
    if a.len() < 4 || (a.len() - 2) % 2 != 0 {
        Err("wrong number of arguments for 'hset' command"@)
    } else {
        Ok(CommandView::Hset { key: a[1], fields: paired(a.skip(2)) })
    }
}

pub(crate) fn build_hset(args: &Vec<Bytes>) -> (r: Result<Command, String>)
    requires
        args.len() > 0,
    ensures
        built(r) == hset_spec(contents(args@)),
{
    if args.len() < 4 || (args.len() - 2) % 2 != 0 {
        return Err("wrong number of arguments for 'hset' command".to_owned());
    }
    Ok(Command::Hset { key: args[1].clone(), fields: pair_list_from(args, 2) })
}

/// What `HSETNX` builds from its arguments.
pub open spec fn hsetnx_spec(a: Seq<Seq<u8>>) -> Result<CommandView, Seq<char>> {
    if a.len() != 4 {
        Err("wrong number of arguments for 'hsetnx' command"@)
    } else {
        Ok(CommandView::Hsetnx { key: a[1], field: a[2], value: a[3] })
    }
}

pub(crate) fn build_hsetnx(args: &Vec<Bytes>) -> (r: Result<Command, String>)
    requires
        args.len() > 0,
    ensures
        built(r) == hsetnx_spec(contents(args@)),
{
    if args.len() != 4 {
        return Err("wrong number of arguments for 'hsetnx' command".to_owned());
    }
    Ok(Command::Hsetnx { key: args[1].clone(), field: args[2].clone(), value: args[3].clone() })
}

/// What `HMSET` builds from its arguments.
pub open spec fn hmset_spec(a: Seq<Seq<u8>>) -> Result<CommandView, Seq<char>> {
    if a.len() < 4 || (a.len() - 2) % 2 != 0 {
        Err("wrong number of arguments for 'hmset' command"@)
    } else {
        Ok(CommandView::Hmset { key: a[1], fields: paired(a.skip(2)) })
    }
}

pub(crate) fn build_hmset(args: &Vec<Bytes>) -> (r: Result<Command, String>)
    requires
        args.len() > 0,
    ensures
        built(r) == hmset_spec(contents(args@)),
{
    if args.len() < 4 || (args.len() - 2) % 2 != 0 {
        return Err("wrong number of arguments for 'hmset' command".to_owned());
    }
    Ok(Command::Hmset { key: args[1].clone(), fields: pair_list_from(args, 2) })
}

/// What `HGET` builds from its arguments.
pub open spec fn hget_spec(a: Seq<Seq<u8>>) -> Result<CommandView, Seq<char>> {
    if a.len() != 3 {
        Err("wrong number of arguments for 'hget' command"@)
    } else {
        Ok(CommandView::Hget { key: a[1], field: a[2] })
    }
}

pub(crate) fn build_hget(args: &Vec<Bytes>) -> (r: Result<Command, String>)
    requires
        args.len() > 0,
    ensures
        built(r) == hget_spec(contents(args@)),
{
    if args.len() != 3 {
        return Err("wrong number of arguments for 'hget' command".to_owned());
    }
    Ok(Command::Hget { key: args[1].clone(), field: args[2].clone() })
}

/// What `HMGET` builds from its arguments.
pub open spec fn hmget_spec(a: Seq<Seq<u8>>) -> Result<CommandView, Seq<char>> {
    if a.len() < 3 {
        Err("wrong number of arguments for 'hmget' command"@)
    } else {
        Ok(CommandView::Hmget { key: a[1], fields: a.skip(2) })
    }
}

pub(crate) fn build_hmget(args: &Vec<Bytes>) -> (r: Result<Command, String>)
    requires
        args.len() > 0,
    ensures
        built(r) == hmget_spec(contents(args@)),
{
    if args.len() < 3 {
        return Err("wrong number of arguments for 'hmget' command".to_owned());
    }
    Ok(Command::Hmget { key: args[1].clone(), fields: keys_from(args, 2) })
}

/// What `HDEL` builds from its arguments.
pub open spec fn hdel_spec(a: Seq<Seq<u8>>) -> Result<CommandView, Seq<char>> {
    if a.len() < 3 {
        Err("wrong number of arguments for 'hdel' command"@)
    } else {
        Ok(CommandView::Hdel { key: a[1], fields: a.skip(2) })
    }
}

pub(crate) fn build_hdel(args: &Vec<Bytes>) -> (r: Result<Command, String>)
    requires
        args.len() > 0,
    ensures
        built(r) == hdel_spec(contents(args@)),
{
    if args.len() < 3 {
        return Err("wrong number of arguments for 'hdel' command".to_owned());
    }
    Ok(Command::Hdel { key: args[1].clone(), fields: keys_from(args, 2) })
}

/// What `HEXISTS` builds from its arguments.
pub open spec fn hexists_spec(a: Seq<Seq<u8>>) -> Result<CommandView, Seq<char>> {
    if a.len() != 3 {
        Err("wrong number of arguments for 'hexists' command"@)
    } else {
        Ok(CommandView::Hexists { key: a[1], field: a[2] })
    }
}

pub(crate) fn build_hexists(args: &Vec<Bytes>) -> (r: Result<Command, String>)
    requires
        args.len() > 0,
    ensures
        built(r) == hexists_spec(contents(args@)),
{
    if args.len() != 3 {
        return Err("wrong number of arguments for 'hexists' command".to_owned());
    }
    Ok(Command::Hexists { key: args[1].clone(), field: args[2].clone() })
}

/// What `HLEN` builds from its arguments.
pub open spec fn hlen_spec(a: Seq<Seq<u8>>) -> Result<CommandView, Seq<char>> {
    if a.len() != 2 {
        Err("wrong number of arguments for 'hlen' command"@)
    } else {
        Ok(CommandView::Hlen(a[1]))
    }
}

pub(crate) fn build_hlen(args: &Vec<Bytes>) -> (r: Result<Command, String>)
    requires
        args.len() > 0,
    ensures
        built(r) == hlen_spec(contents(args@)),
{
    if args.len() != 2 {
        return Err("wrong number of arguments for 'hlen' command".to_owned());
    }
    Ok(Command::Hlen(args[1].clone()))
}

/// What `HGETALL` builds from its arguments.
pub open spec fn hgetall_spec(a: Seq<Seq<u8>>) -> Result<CommandView, Seq<char>> {
    if a.len() != 2 {
        Err("wrong number of arguments for 'hgetall' command"@)
    } else {
        Ok(CommandView::Hgetall(a[1]))
    }
}

pub(crate) fn build_hgetall(args: &Vec<Bytes>) -> (r: Result<Command, String>)
    requires
        args.len() > 0,
    ensures
        built(r) == hgetall_spec(contents(args@)),
{
    if args.len() != 2 {
        return Err("wrong number of arguments for 'hgetall' command".to_owned());
    }
    Ok(Command::Hgetall(args[1].clone()))
}

/// What `HKEYS` builds from its arguments.
pub open spec fn hkeys_spec(a: Seq<Seq<u8>>) -> Result<CommandView, Seq<char>> {
    if a.len() != 2 {
        Err("wrong number of arguments for 'hkeys' command"@)
    } else {
        Ok(CommandView::Hkeys(a[1]))
    }
}

pub(crate) fn build_hkeys(args: &Vec<Bytes>) -> (r: Result<Command, String>)
    requires
        args.len() > 0,
    ensures
        built(r) == hkeys_spec(contents(args@)),
{
    if args.len() != 2 {
        return Err("wrong number of arguments for 'hkeys' command".to_owned());
    }
    Ok(Command::Hkeys(args[1].clone()))
}

/// What `HVALS` builds from its arguments.
pub open spec fn hvals_spec(a: Seq<Seq<u8>>) -> Result<CommandView, Seq<char>> {
    if a.len() != 2 {
        Err("wrong number of arguments for 'hvals' command"@)
    } else {
        Ok(CommandView::Hvals(a[1]))
    }
}

pub(crate) fn build_hvals(args: &Vec<Bytes>) -> (r: Result<Command, String>)
    requires
        args.len() > 0,
    ensures
        built(r) == hvals_spec(contents(args@)),
{
    if args.len() != 2 {
        return Err("wrong number of arguments for 'hvals' command".to_owned());
    }
    Ok(Command::Hvals(args[1].clone()))
}

/// What `HSTRLEN` builds from its arguments.
pub open spec fn hstrlen_spec(a: Seq<Seq<u8>>) -> Result<CommandView, Seq<char>> {
    if a.len() != 3 {
        Err("wrong number of arguments for 'hstrlen' command"@)
    } else {
        Ok(CommandView::Hstrlen { key: a[1], field: a[2] })
    }
}

pub(crate) fn build_hstrlen(args: &Vec<Bytes>) -> (r: Result<Command, String>)
    requires
        args.len() > 0,
    ensures
        built(r) == hstrlen_spec(contents(args@)),
{
    if args.len() != 3 {
        return Err("wrong number of arguments for 'hstrlen' command".to_owned());
    }
    Ok(Command::Hstrlen { key: args[1].clone(), field: args[2].clone() })
}

/// What `HGETDEL` builds from its arguments.
pub open spec fn hgetdel_spec(a: Seq<Seq<u8>>) -> Result<CommandView, Seq<char>> {
    if a.len() < 5 {
        Err("wrong number of arguments for 'hgetdel' command"@)
    } else if !spells(a[2], "FIELDS"@) {
        Err("ERR argument FIELDS is missing or invalid"@)
    } else {
        match i64_of(a[3]) {
            None => Err("ERR Number of fields must be a positive integer"@),
            Some(numfields) => {
                if numfields <= 0 {
                    Err("ERR Number of fields must be a positive integer"@)
                } else if a.len() - 4 != numfields as usize {
                    Err("ERR numfields parameter must match the number of arguments"@)
                } else {
                    Ok(CommandView::Hgetdel { key: a[1], fields: a.skip(4) })
                }
            },
        }
    }
}

pub(crate) fn build_hgetdel(args: &Vec<Bytes>) -> (r: Result<Command, String>)
    requires
        args.len() > 0,
    ensures
        built(r) == hgetdel_spec(contents(args@)),
{
    if args.len() < 5 {
        return Err("wrong number of arguments for 'hgetdel' command".to_owned());
    }
    if !spells_word(args[2].as_ref(), "FIELDS") {
        return Err("ERR argument FIELDS is missing or invalid".to_owned());
    }
    let numfields: i64 = match read_i64(args[3].as_ref()) {
        Some(v) => v,
        None => return Err("ERR Number of fields must be a positive integer".to_owned()),
    };
    if numfields <= 0 {
        return Err("ERR Number of fields must be a positive integer".to_owned());
    }
    if args.len() - 4 != numfields as usize {
        return Err("ERR numfields parameter must match the number of arguments".to_owned());
    }
    Ok(Command::Hgetdel { key: args[1].clone(), fields: keys_from(args, 4) })
}

/// What `HINCRBY` builds from its arguments.
pub open spec fn hincrby_spec(a: Seq<Seq<u8>>) -> Result<CommandView, Seq<char>> {
    if a.len() != 4 {
        Err("wrong number of arguments for 'hincrby' command"@)
    } else {
        match i64_of(a[3]) {
            None => Err("value is not an integer or out of range"@),
            Some(increment) => {
                Ok(CommandView::Hincrby { key: a[1], field: a[2], increment })
            },
        }
    }
}

pub(crate) fn build_hincrby(args: &Vec<Bytes>) -> (r: Result<Command, String>)
    requires
        args.len() > 0,
    ensures
        built(r) == hincrby_spec(contents(args@)),
{
    if args.len() != 4 {
        return Err("wrong number of arguments for 'hincrby' command".to_owned());
    }
    let increment: i64 = match read_i64(args[3].as_ref()) {
        Some(v) => v,
        None => return Err("value is not an integer or out of range".to_owned()),
    };
    Ok(Command::Hincrby { key: args[1].clone(), field: args[2].clone(), increment })
}

/// What `HINCRBYFLOAT` builds from its arguments.
pub open spec fn hincrbyfloat_spec(
    a: Seq<Seq<u8>>,
    env: &ParseEnv,
) -> Result<CommandView, Seq<char>> {
    if a.len() != 4 {
        Err("wrong number of arguments for 'hincrbyfloat' command"@)
    } else {
        match redis_double_of(env, a[3]) {
            None => Err("value is not a valid float"@),
            Some(increment) => {
                if increment.nan() || increment.infinite() {
                    Err("value is NaN or Infinity"@)
                } else {
                    Ok(CommandView::Hincrbyfloat { key: a[1], field: a[2], increment })
                }
            },
        }
    }
}

pub(crate) fn build_hincrbyfloat(args: &Vec<Bytes>, env: &ParseEnv) -> (r: Result<Command, String>)
    requires
        args.len() > 0,
    ensures
        built(r) == hincrbyfloat_spec(contents(args@), env),
{
    if args.len() != 4 {
        return Err("wrong number of arguments for 'hincrbyfloat' command".to_owned());
    }
    let increment: Double = match redis_double(env, args[3].as_ref()) {
        Some(v) => v,
        None => return Err("value is not a valid float".to_owned()),
    };
    if increment.is_nan() || increment.is_infinite() {
        return Err("value is NaN or Infinity".to_owned());
    }
    Ok(Command::Hincrbyfloat { key: args[1].clone(), field: args[2].clone(), increment })
}

/// What `HRANDFIELD` builds from its arguments.
pub open spec fn hrandfield_spec(a: Seq<Seq<u8>>) -> Result<CommandView, Seq<char>> {
    if a.len() < 2 || a.len() > 4 {
        Err("wrong number of arguments for 'hrandfield' command"@)
    } else if a.len() >= 3 {
        match i64_of(a[2]) {
            None => Err("value is not an integer or out of range"@),
            Some(c) => {
                if c == i64::MIN {
                    Err("value is out of range"@)
                } else if a.len() == 4 {
                    if !spells(a[3], "WITHVALUES"@) {
                        Err("syntax error"@)
                    } else if c < -4611686018427387904 || c > 4611686018427387903 {
                        Err("value is out of range"@)
                    } else {
                        Ok(CommandView::Hrandfield {
                            key: a[1],
                            count: Some(c),
                            with_values: true,
                        })
                    }
                } else {
                    Ok(CommandView::Hrandfield {
                        key: a[1],
                        count: Some(c),
                        with_values: false,
                    })
                }
            },
        }
    } else {
        Ok(CommandView::Hrandfield { key: a[1], count: None, with_values: false })
    }
}

pub(crate) fn build_hrandfield(args: &Vec<Bytes>) -> (r: Result<Command, String>)
    requires
        args.len() > 0,
    ensures
        built(r) == hrandfield_spec(contents(args@)),
{
    if args.len() < 2 || args.len() > 4 {
        return Err("wrong number of arguments for 'hrandfield' command".to_owned());
    }
    if args.len() >= 3 {
        let c: i64 = match read_i64(args[2].as_ref()) {
            Some(v) => v,
            None => return Err("value is not an integer or out of range".to_owned()),
        };
        if c == i64::MIN {
            return Err("value is out of range".to_owned());
        }
        if args.len() == 4 {
            if !spells_word(args[3].as_ref(), "WITHVALUES") {
                return Err("syntax error".to_owned());
            }
            if c < -4611686018427387904 || c > 4611686018427387903 {
                return Err("value is out of range".to_owned());
            }
            Ok(Command::Hrandfield { key: args[1].clone(), count: Some(c), with_values: true })
        } else {
            Ok(Command::Hrandfield { key: args[1].clone(), count: Some(c), with_values: false })
        }
    } else {
        Ok(Command::Hrandfield { key: args[1].clone(), count: None, with_values: false })
    }
}

/// What `HSCAN` builds from its arguments.
pub open spec fn hscan_spec(a: Seq<Seq<u8>>) -> Result<CommandView, Seq<char>> {
    if a.len() < 3 {
        Err("wrong number of arguments for 'hscan' command"@)
    } else {
        match usize_of(a[2]) {
            None => Err("value is not an integer or out of range"@),
            Some(cursor) => {
                let pattern: Option<Seq<u8>> = None;
                let count: Option<usize> = None;
                let i: int = 3;
                match walk_options(a, pattern, count, i) {
                    Err(e) => Err(e),
                    Ok((pattern, count)) => {
                        Ok(CommandView::Hscan { key: a[1], cursor, pattern, count })
                    },
                }
            },
        }
    }
}

pub(crate) fn build_hscan(args: &Vec<Bytes>) -> (r: Result<Command, String>)
    requires
        args.len() > 0,
    ensures
        built(r) == hscan_spec(contents(args@)),
{
    if args.len() < 3 {
        return Err("wrong number of arguments for 'hscan' command".to_owned());
    }
    let cursor: usize = match read_usize(args[2].as_ref()) {
        Some(v) => v,
        None => return Err("value is not an integer or out of range".to_owned()),
    };
    let (pattern, count): (Option<Bytes>, Option<usize>) = match read_walk_options(args, 3) {
        Ok(v) => v,
        Err(e) => return Err(e),
    };
    Ok(Command::Hscan { key: args[1].clone(), cursor, pattern, count })
}

/// The commands on hashes: the command that `name` stands for among them, if it is one.
pub open spec fn hashes_command_spec(
    name: Seq<char>,
    a: Seq<Seq<u8>>,
    env: &ParseEnv,
) -> Option<Result<CommandView, Seq<char>>> {
    if name == "HSET"@ {
        Some(hset_spec(a))
    } else if name == "HSETNX"@ {
        Some(hsetnx_spec(a))
    } else if name == "HMSET"@ {
        Some(hmset_spec(a))
    } else if name == "HGET"@ {
        Some(hget_spec(a))
    } else if name == "HMGET"@ {
        Some(hmget_spec(a))
    } else if name == "HDEL"@ {
        Some(hdel_spec(a))
    } else if name == "HEXISTS"@ {
        Some(hexists_spec(a))
    } else if name == "HLEN"@ {
        Some(hlen_spec(a))
    } else if name == "HGETALL"@ {
        Some(hgetall_spec(a))
    } else if name == "HKEYS"@ {
        Some(hkeys_spec(a))
    } else if name == "HVALS"@ {
        Some(hvals_spec(a))
    } else if name == "HSTRLEN"@ {
        Some(hstrlen_spec(a))
    } else if name == "HGETDEL"@ {
        Some(hgetdel_spec(a))
    } else if name == "HINCRBY"@ {
        Some(hincrby_spec(a))
    } else if name == "HINCRBYFLOAT"@ {
        Some(hincrbyfloat_spec(a, env))
    } else if name == "HRANDFIELD"@ {
        Some(hrandfield_spec(a))
    } else if name == "HSCAN"@ {
        Some(hscan_spec(a))
    } else {
        None
    }
}

pub(crate) fn hashes_command(
    name: &str,
    args: &Vec<Bytes>,
    env: &ParseEnv,
) -> (r: Option<Result<Command, String>>)
    requires
        args.len() > 0,
    ensures
        built_opt(r) == hashes_command_spec(name@, contents(args@), env),
{
    if same_text(name, "HSET") {
        Some(build_hset(args))
    } else if same_text(name, "HSETNX") {
        Some(build_hsetnx(args))
    } else if same_text(name, "HMSET") {
        Some(build_hmset(args))
    } else if same_text(name, "HGET") {
        Some(build_hget(args))
    } else if same_text(name, "HMGET") {
        Some(build_hmget(args))
    } else if same_text(name, "HDEL") {
        Some(build_hdel(args))
    } else if same_text(name, "HEXISTS") {
        Some(build_hexists(args))
    } else if same_text(name, "HLEN") {
        Some(build_hlen(args))
    } else if same_text(name, "HGETALL") {
        Some(build_hgetall(args))
    } else if same_text(name, "HKEYS") {
        Some(build_hkeys(args))
    } else if same_text(name, "HVALS") {
        Some(build_hvals(args))
    } else if same_text(name, "HSTRLEN") {
        Some(build_hstrlen(args))
    } else if same_text(name, "HGETDEL") {
        Some(build_hgetdel(args))
    } else if same_text(name, "HINCRBY") {
        Some(build_hincrby(args))
    } else if same_text(name, "HINCRBYFLOAT") {
        Some(build_hincrbyfloat(args, env))
    } else if same_text(name, "HRANDFIELD") {
        Some(build_hrandfield(args))
    } else if same_text(name, "HSCAN") {
        Some(build_hscan(args))
    } else {
        None
    }
}

} // verus!
