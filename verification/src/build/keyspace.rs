//! Keys, expiry times and transactions.
use bytes::Bytes;
use vstd::prelude::*;

use crate::command::{Command, CommandView, SetCondition, SetConditionView, built, built_opt};
use crate::lists::{content_opt, contents, keys_from, paired, pairs_from};
use crate::numbers::{read_u32, read_u64, read_usize, u32_of, u64_of, usize_of};
use crate::readings::ParseEnv;
use crate::text::{same_text, upper, upper_word};
use crate::time::{Duration, millis_to, millis_until, seconds_until, span_to};

verus! {

/// What `TYPE` builds from its arguments.
pub open spec fn type_spec(a: Seq<Seq<u8>>) -> Result<CommandView, Seq<char>> {
    if a.len() != 2 {
        Err("wrong number of arguments for 'type' command"@)
    } else {
        Ok(CommandView::Type(a[1]))
    }
}

pub(crate) fn build_type(args: &Vec<Bytes>) -> (r: Result<Command, String>)
    requires
        args.len() > 0,
    ensures
        built(r) == type_spec(contents(args@)),
{
    if args.len() != 2 {
        return Err("wrong number of arguments for 'type' command".to_owned());
    }
    Ok(Command::Type(args[1].clone()))
}

/// What `DIGEST` builds from its arguments.
pub open spec fn digest_spec(a: Seq<Seq<u8>>) -> Result<CommandView, Seq<char>> {
    if a.len() != 2 {
        Err("wrong number of arguments for 'digest' command"@)
    } else {
        Ok(CommandView::Digest(a[1]))
    }
}

pub(crate) fn build_digest(args: &Vec<Bytes>) -> (r: Result<Command, String>)
    requires
        args.len() > 0,
    ensures
        built(r) == digest_spec(contents(args@)),
{
    if args.len() != 2 {
        return Err("wrong number of arguments for 'digest' command".to_owned());
    }
    Ok(Command::Digest(args[1].clone()))
}

/// What `GETDEL` builds from its arguments.
pub open spec fn getdel_spec(a: Seq<Seq<u8>>) -> Result<CommandView, Seq<char>> {
    if a.len() != 2 {
        Err("wrong number of arguments for 'getdel' command"@)
    } else {
        Ok(CommandView::Getdel(a[1]))
    }
}

pub(crate) fn build_getdel(args: &Vec<Bytes>) -> (r: Result<Command, String>)
    requires
        args.len() > 0,
    ensures
        built(r) == getdel_spec(contents(args@)),
{
    if args.len() != 2 {
        return Err("wrong number of arguments for 'getdel' command".to_owned());
    }
    Ok(Command::Getdel(args[1].clone()))
}

/// What `STRLEN` builds from its arguments.
pub open spec fn strlen_spec(a: Seq<Seq<u8>>) -> Result<CommandView, Seq<char>> {
    if a.len() != 2 {
        Err("wrong number of arguments for 'strlen' command"@)
    } else {
        Ok(CommandView::Strlen(a[1]))
    }
}

pub(crate) fn build_strlen(args: &Vec<Bytes>) -> (r: Result<Command, String>)
    requires
        args.len() > 0,
    ensures
        built(r) == strlen_spec(contents(args@)),
{
    if args.len() != 2 {
        return Err("wrong number of arguments for 'strlen' command".to_owned());
    }
    Ok(Command::Strlen(args[1].clone()))
}

/// What `DUMP` builds from its arguments.
pub open spec fn dump_spec(a: Seq<Seq<u8>>) -> Result<CommandView, Seq<char>> {
    if a.len() != 2 {
        Err("wrong number of arguments for 'dump' command"@)
    } else {
        Ok(CommandView::Dump(a[1]))
    }
}

pub(crate) fn build_dump(args: &Vec<Bytes>) -> (r: Result<Command, String>)
    requires
        args.len() > 0,
    ensures
        built(r) == dump_spec(contents(args@)),
{
    if args.len() != 2 {
        return Err("wrong number of arguments for 'dump' command".to_owned());
    }
    Ok(Command::Dump(args[1].clone()))
}

/// What `KEYS` builds from its arguments.
pub open spec fn keys_spec(a: Seq<Seq<u8>>) -> Result<CommandView, Seq<char>> {
    if a.len() != 2 {
        Err("wrong number of arguments for 'keys' command"@)
    } else {
        Ok(CommandView::Keys(a[1]))
    }
}

pub(crate) fn build_keys(args: &Vec<Bytes>) -> (r: Result<Command, String>)
    requires
        args.len() > 0,
    ensures
        built(r) == keys_spec(contents(args@)),
{
    if args.len() != 2 {
        return Err("wrong number of arguments for 'keys' command".to_owned());
    }
    Ok(Command::Keys(args[1].clone()))
}

/// What `STICKY` builds from its arguments.
pub open spec fn sticky_spec(a: Seq<Seq<u8>>) -> Result<CommandView, Seq<char>> {
    if a.len() != 2 {
        Err("wrong number of arguments for 'sticky' command"@)
    } else {
        Ok(CommandView::Sticky(a[1]))
    }
}

pub(crate) fn build_sticky(args: &Vec<Bytes>) -> (r: Result<Command, String>)
    requires
        args.len() > 0,
    ensures
        built(r) == sticky_spec(contents(args@)),
{
    if args.len() != 2 {
        return Err("wrong number of arguments for 'sticky' command".to_owned());
    }
    Ok(Command::Sticky(args[1].clone()))
}

/// What `DBSIZE` builds from its arguments.
pub open spec fn dbsize_spec(a: Seq<Seq<u8>>) -> Result<CommandView, Seq<char>> {
    if a.len() != 1 {
        Err("wrong number of arguments for 'dbsize' command"@)
    } else {
        Ok(CommandView::Dbsize)
    }
}

pub(crate) fn build_dbsize(args: &Vec<Bytes>) -> (r: Result<Command, String>)
    requires
        args.len() > 0,
    ensures
        built(r) == dbsize_spec(contents(args@)),
{
    if args.len() != 1 {
        return Err("wrong number of arguments for 'dbsize' command".to_owned());
    }
    Ok(Command::Dbsize)
}

/// What `RANDOMKEY` builds from its arguments.
pub open spec fn randomkey_spec(a: Seq<Seq<u8>>) -> Result<CommandView, Seq<char>> {
    if a.len() != 1 {
        Err("wrong number of arguments for 'randomkey' command"@)
    } else {
        Ok(CommandView::Randomkey)
    }
}

pub(crate) fn build_randomkey(args: &Vec<Bytes>) -> (r: Result<Command, String>)
    requires
        args.len() > 0,
    ensures
        built(r) == randomkey_spec(contents(args@)),
{
    if args.len() != 1 {
        return Err("wrong number of arguments for 'randomkey' command".to_owned());
    }
    Ok(Command::Randomkey)
}

/// What `MULTI` builds from its arguments.
pub open spec fn multi_spec(a: Seq<Seq<u8>>) -> Result<CommandView, Seq<char>> {
    if a.len() != 1 {
        Err("wrong number of arguments for 'multi' command"@)
    } else {
        Ok(CommandView::Multi)
    }
}

pub(crate) fn build_multi(args: &Vec<Bytes>) -> (r: Result<Command, String>)
    requires
        args.len() > 0,
    ensures
        built(r) == multi_spec(contents(args@)),
{
    if args.len() != 1 {
        return Err("wrong number of arguments for 'multi' command".to_owned());
    }
    Ok(Command::Multi)
}

/// What `EXEC` builds from its arguments.
pub open spec fn exec_spec(a: Seq<Seq<u8>>) -> Result<CommandView, Seq<char>> {
    if a.len() != 1 {
        Err("wrong number of arguments for 'exec' command"@)
    } else {
        Ok(CommandView::Exec)
    }
}

pub(crate) fn build_exec(args: &Vec<Bytes>) -> (r: Result<Command, String>)
    requires
        args.len() > 0,
    ensures
        built(r) == exec_spec(contents(args@)),
{
    if args.len() != 1 {
        return Err("wrong number of arguments for 'exec' command".to_owned());
    }
    Ok(Command::Exec)
}

/// What `DISCARD` builds from its arguments.
pub open spec fn discard_spec(a: Seq<Seq<u8>>) -> Result<CommandView, Seq<char>> {
    if a.len() != 1 {
        Err("wrong number of arguments for 'discard' command"@)
    } else {
        Ok(CommandView::Discard)
    }
}

pub(crate) fn build_discard(args: &Vec<Bytes>) -> (r: Result<Command, String>)
    requires
        args.len() > 0,
    ensures
        built(r) == discard_spec(contents(args@)),
{
    if args.len() != 1 {
        return Err("wrong number of arguments for 'discard' command".to_owned());
    }
    Ok(Command::Discard)
}

/// What `UNWATCH` builds from its arguments.
pub open spec fn unwatch_spec(a: Seq<Seq<u8>>) -> Result<CommandView, Seq<char>> {
    if a.len() != 1 {
        Err("wrong number of arguments for 'unwatch' command"@)
    } else {
        Ok(CommandView::Unwatch)
    }
}

pub(crate) fn build_unwatch(args: &Vec<Bytes>) -> (r: Result<Command, String>)
    requires
        args.len() > 0,
    ensures
        built(r) == unwatch_spec(contents(args@)),
{
    if args.len() != 1 {
        return Err("wrong number of arguments for 'unwatch' command".to_owned());
    }
    Ok(Command::Unwatch)
}

/// What `TOUCH` builds from its arguments.
pub open spec fn touch_spec(a: Seq<Seq<u8>>) -> Result<CommandView, Seq<char>> {
    if a.len() < 2 {
        Err("wrong number of arguments for 'touch' command"@)
    } else {
        Ok(CommandView::Touch(a.skip(1)))
    }
}

pub(crate) fn build_touch(args: &Vec<Bytes>) -> (r: Result<Command, String>)
    requires
        args.len() > 0,
    ensures
        built(r) == touch_spec(contents(args@)),
{
    if args.len() < 2 {
        return Err("wrong number of arguments for 'touch' command".to_owned());
    }
    Ok(Command::Touch(keys_from(args, 1)))
}

/// What `STICK` builds from its arguments.
pub open spec fn stick_spec(a: Seq<Seq<u8>>) -> Result<CommandView, Seq<char>> {
    if a.len() < 2 {
        Err("wrong number of arguments for 'stick' command"@)
    } else {
        Ok(CommandView::Stick(a.skip(1)))
    }
}

pub(crate) fn build_stick(args: &Vec<Bytes>) -> (r: Result<Command, String>)
    requires
        args.len() > 0,
    ensures
        built(r) == stick_spec(contents(args@)),
{
    if args.len() < 2 {
        return Err("wrong number of arguments for 'stick' command".to_owned());
    }
    Ok(Command::Stick(keys_from(args, 1)))
}

/// What `UNSTICK` builds from its arguments.
pub open spec fn unstick_spec(a: Seq<Seq<u8>>) -> Result<CommandView, Seq<char>> {
    if a.len() < 2 {
        Err("wrong number of arguments for 'unstick' command"@)
    } else {
        Ok(CommandView::Unstick(a.skip(1)))
    }
}

pub(crate) fn build_unstick(args: &Vec<Bytes>) -> (r: Result<Command, String>)
    requires
        args.len() > 0,
    ensures
        built(r) == unstick_spec(contents(args@)),
{
    if args.len() < 2 {
        return Err("wrong number of arguments for 'unstick' command".to_owned());
    }
    Ok(Command::Unstick(keys_from(args, 1)))
}

/// What `WATCH` builds from its arguments.
pub open spec fn watch_spec(a: Seq<Seq<u8>>) -> Result<CommandView, Seq<char>> {
    if a.len() < 2 {
        Err("wrong number of arguments for 'watch' command"@)
    } else {
        Ok(CommandView::Watch(a.skip(1)))
    }
}

pub(crate) fn build_watch(args: &Vec<Bytes>) -> (r: Result<Command, String>)
    requires
        args.len() > 0,
    ensures
        built(r) == watch_spec(contents(args@)),
{
    if args.len() < 2 {
        return Err("wrong number of arguments for 'watch' command".to_owned());
    }
    Ok(Command::Watch(keys_from(args, 1)))
}

/// What `SETNX` builds from its arguments.
pub open spec fn setnx_spec(a: Seq<Seq<u8>>) -> Result<CommandView, Seq<char>> {
    if a.len() != 3 {
        Err("wrong number of arguments for 'setnx' command"@)
    } else {
        Ok(CommandView::Setnx { key: a[1], value: a[2] })
    }
}

pub(crate) fn build_setnx(args: &Vec<Bytes>) -> (r: Result<Command, String>)
    requires
        args.len() > 0,
    ensures
        built(r) == setnx_spec(contents(args@)),
{
    if args.len() != 3 {
        return Err("wrong number of arguments for 'setnx' command".to_owned());
    }
    Ok(Command::Setnx { key: args[1].clone(), value: args[2].clone() })
}

/// What `GETSET` builds from its arguments.
pub open spec fn getset_spec(a: Seq<Seq<u8>>) -> Result<CommandView, Seq<char>> {
    if a.len() != 3 {
        Err("wrong number of arguments for 'getset' command"@)
    } else {
        Ok(CommandView::Getset { key: a[1], value: a[2] })
    }
}

pub(crate) fn build_getset(args: &Vec<Bytes>) -> (r: Result<Command, String>)
    requires
        args.len() > 0,
    ensures
        built(r) == getset_spec(contents(args@)),
{
    if args.len() != 3 {
        return Err("wrong number of arguments for 'getset' command".to_owned());
    }
    Ok(Command::Getset { key: args[1].clone(), value: args[2].clone() })
}

/// What `APPEND` builds from its arguments.
pub open spec fn append_spec(a: Seq<Seq<u8>>) -> Result<CommandView, Seq<char>> {
    if a.len() != 3 {
        Err("wrong number of arguments for 'append' command"@)
    } else {
        Ok(CommandView::Append { key: a[1], value: a[2] })
    }
}

pub(crate) fn build_append(args: &Vec<Bytes>) -> (r: Result<Command, String>)
    requires
        args.len() > 0,
    ensures
        built(r) == append_spec(contents(args@)),
{
    if args.len() != 3 {
        return Err("wrong number of arguments for 'append' command".to_owned());
    }
    Ok(Command::Append { key: args[1].clone(), value: args[2].clone() })
}

/// What `SELECT` builds from its arguments.
pub open spec fn select_spec(a: Seq<Seq<u8>>) -> Result<CommandView, Seq<char>> {
    if a.len() != 2 {
        Err("wrong number of arguments for 'select' command"@)
    } else {
        match u32_of(a[1]) {
            None => Err("value is not an integer or out of range"@),
            Some(db) => {
                Ok(CommandView::Select(db))
            },
        }
    }
}

pub(crate) fn build_select(args: &Vec<Bytes>) -> (r: Result<Command, String>)
    requires
        args.len() > 0,
    ensures
        built(r) == select_spec(contents(args@)),
{
    if args.len() != 2 {
        return Err("wrong number of arguments for 'select' command".to_owned());
    }
    let db: u32 = match read_u32(args[1].as_ref()) {
        Some(v) => v,
        None => return Err("value is not an integer or out of range".to_owned()),
    };
    Ok(Command::Select(db))
}

/// What `EXPIREAT` builds from its arguments.
pub open spec fn expireat_spec(a: Seq<Seq<u8>>, env: &ParseEnv) -> Result<CommandView, Seq<char>> {
    if a.len() != 3 {
        Err("wrong number of arguments for 'expireat' command"@)
    } else {
        match u64_of(a[2]) {
            None => Err("value is not an integer or out of range"@),
            Some(ts) => {
                Ok(CommandView::Expire(a[1], span_to(ts, (env.now_ms / 1000))))
            },
        }
    }
}

pub(crate) fn build_expireat(args: &Vec<Bytes>, env: &ParseEnv) -> (r: Result<Command, String>)
    requires
        args.len() > 0,
    ensures
        built(r) == expireat_spec(contents(args@), env),
{
    if args.len() != 3 {
        return Err("wrong number of arguments for 'expireat' command".to_owned());
    }
    let ts: u64 = match read_u64(args[2].as_ref()) {
        Some(v) => v,
        None => return Err("value is not an integer or out of range".to_owned()),
    };
    Ok(Command::Expire(args[1].clone(), seconds_until(ts, (env.now_ms / 1000))))
}

/// What `PEXPIREAT` builds from its arguments.
pub open spec fn pexpireat_spec(a: Seq<Seq<u8>>, env: &ParseEnv) -> Result<CommandView, Seq<char>> {
    if a.len() != 3 {
        Err("wrong number of arguments for 'pexpireat' command"@)
    } else {
        match u64_of(a[2]) {
            None => Err("value is not an integer or out of range"@),
            Some(ts) => {
                Ok(CommandView::Expire(a[1], millis_to(ts, env.now_ms)))
            },
        }
    }
}

pub(crate) fn build_pexpireat(args: &Vec<Bytes>, env: &ParseEnv) -> (r: Result<Command, String>)
    requires
        args.len() > 0,
    ensures
        built(r) == pexpireat_spec(contents(args@), env),
{
    if args.len() != 3 {
        return Err("wrong number of arguments for 'pexpireat' command".to_owned());
    }
    let ts: u64 = match read_u64(args[2].as_ref()) {
        Some(v) => v,
        None => return Err("value is not an integer or out of range".to_owned()),
    };
    Ok(Command::Expire(args[1].clone(), millis_until(ts, env.now_ms)))
}

/// What `EXPIRETIME` builds from its arguments.
pub open spec fn expiretime_spec(a: Seq<Seq<u8>>) -> Result<CommandView, Seq<char>> {
    if a.len() != 2 {
        Err("wrong number of arguments for 'expiretime' command"@)
    } else {
        Ok(CommandView::Expiretime(a[1], false))
    }
}

pub(crate) fn build_expiretime(args: &Vec<Bytes>) -> (r: Result<Command, String>)
    requires
        args.len() > 0,
    ensures
        built(r) == expiretime_spec(contents(args@)),
{
    if args.len() != 2 {
        return Err("wrong number of arguments for 'expiretime' command".to_owned());
    }
    Ok(Command::Expiretime(args[1].clone(), false))
}

/// What `PEXPIRETIME` builds from its arguments.
pub open spec fn pexpiretime_spec(a: Seq<Seq<u8>>) -> Result<CommandView, Seq<char>> {
    if a.len() != 2 {
        Err("wrong number of arguments for 'pexpiretime' command"@)
    } else {
        Ok(CommandView::Expiretime(a[1], true))
    }
}

pub(crate) fn build_pexpiretime(args: &Vec<Bytes>) -> (r: Result<Command, String>)
    requires
        args.len() > 0,
    ensures
        built(r) == pexpiretime_spec(contents(args@)),
{
    if args.len() != 2 {
        return Err("wrong number of arguments for 'pexpiretime' command".to_owned());
    }
    Ok(Command::Expiretime(args[1].clone(), true))
}

/// What `RENAME` builds from its arguments.
pub open spec fn rename_spec(a: Seq<Seq<u8>>) -> Result<CommandView, Seq<char>> {
    if a.len() != 3 {
        Err("wrong number of arguments for 'rename' command"@)
    } else {
        Ok(CommandView::Rename { key: a[1], newkey: a[2], nx: false })
    }
}

pub(crate) fn build_rename(args: &Vec<Bytes>) -> (r: Result<Command, String>)
    requires
        args.len() > 0,
    ensures
        built(r) == rename_spec(contents(args@)),
{
    if args.len() != 3 {
        return Err("wrong number of arguments for 'rename' command".to_owned());
    }
    Ok(Command::Rename { key: args[1].clone(), newkey: args[2].clone(), nx: false })
}

/// What `RENAMENX` builds from its arguments.
pub open spec fn renamenx_spec(a: Seq<Seq<u8>>) -> Result<CommandView, Seq<char>> {
    if a.len() != 3 {
        Err("wrong number of arguments for 'renamenx' command"@)
    } else {
        Ok(CommandView::Rename { key: a[1], newkey: a[2], nx: true })
    }
}

pub(crate) fn build_renamenx(args: &Vec<Bytes>) -> (r: Result<Command, String>)
    requires
        args.len() > 0,
    ensures
        built(r) == renamenx_spec(contents(args@)),
{
    if args.len() != 3 {
        return Err("wrong number of arguments for 'renamenx' command".to_owned());
    }
    Ok(Command::Rename { key: args[1].clone(), newkey: args[2].clone(), nx: true })
}

/// What `FLUSHDB` builds from its arguments.
pub open spec fn flushdb_spec(a: Seq<Seq<u8>>) -> Result<CommandView, Seq<char>> {
    Ok(CommandView::Flushdb)
}

pub(crate) fn build_flushdb(args: &Vec<Bytes>) -> (r: Result<Command, String>)
    requires
        args.len() > 0,
    ensures
        built(r) == flushdb_spec(contents(args@)),
{
    Ok(Command::Flushdb)
}

/// What `FLUSHALL` builds from its arguments.
pub open spec fn flushall_spec(a: Seq<Seq<u8>>) -> Result<CommandView, Seq<char>> {
    Ok(CommandView::Flushall)
}

pub(crate) fn build_flushall(args: &Vec<Bytes>) -> (r: Result<Command, String>)
    requires
        args.len() > 0,
    ensures
        built(r) == flushall_spec(contents(args@)),
{
    Ok(Command::Flushall)
}

/// What `SETEX` builds from its arguments.
pub open spec fn setex_spec(a: Seq<Seq<u8>>) -> Result<CommandView, Seq<char>> {
    if a.len() != 4 {
        Err("wrong number of arguments for 'setex' command"@)
    } else {
        match u64_of(a[2]) {
            None => Err("value is not an integer or out of range"@),
            Some(secs) => {
                Ok(CommandView::SetKey {
                    key: a[1],
                    value: a[3],
                    expire_in: Some(Duration::of_secs(secs)),
                    condition: SetConditionView::Always,
                    get: false,
                    keepttl: false,
                    past_expired: false,
                })
            },
        }
    }
}

pub(crate) fn build_setex(args: &Vec<Bytes>) -> (r: Result<Command, String>)
    requires
        args.len() > 0,
    ensures
        built(r) == setex_spec(contents(args@)),
{
    if args.len() != 4 {
        return Err("wrong number of arguments for 'setex' command".to_owned());
    }
    let secs: u64 = match read_u64(args[2].as_ref()) {
        Some(v) => v,
        None => return Err("value is not an integer or out of range".to_owned()),
    };
    Ok(Command::SetKey {
        key: args[1].clone(),
        value: args[3].clone(),
        expire_in: Some(Duration::from_secs(secs)),
        condition: SetCondition::Always,
        get: false,
        keepttl: false,
        past_expired: false,
    })
}

/// What `PSETEX` builds from its arguments.
pub open spec fn psetex_spec(a: Seq<Seq<u8>>) -> Result<CommandView, Seq<char>> {
    if a.len() != 4 {
        Err("wrong number of arguments for 'psetex' command"@)
    } else {
        match u64_of(a[2]) {
            None => Err("value is not an integer or out of range"@),
            Some(ms) => {
                Ok(CommandView::SetKey {
                    key: a[1],
                    value: a[3],
                    expire_in: Some(Duration::of_millis(ms)),
                    condition: SetConditionView::Always,
                    get: false,
                    keepttl: false,
                    past_expired: false,
                })
            },
        }
    }
}

pub(crate) fn build_psetex(args: &Vec<Bytes>) -> (r: Result<Command, String>)
    requires
        args.len() > 0,
    ensures
        built(r) == psetex_spec(contents(args@)),
{
    if args.len() != 4 {
        return Err("wrong number of arguments for 'psetex' command".to_owned());
    }
    let ms: u64 = match read_u64(args[2].as_ref()) {
        Some(v) => v,
        None => return Err("value is not an integer or out of range".to_owned()),
    };
    Ok(Command::SetKey {
        key: args[1].clone(),
        value: args[3].clone(),
        expire_in: Some(Duration::from_millis(ms)),
        condition: SetCondition::Always,
        get: false,
        keepttl: false,
        past_expired: false,
    })
}

/// What `MSETNX` builds from its arguments.
pub open spec fn msetnx_spec(a: Seq<Seq<u8>>) -> Result<CommandView, Seq<char>> {
    if a.len() < 3 || (a.len() - 1) % 2 != 0 {
        Err("wrong number of arguments for 'msetnx' command"@)
    } else {
        Ok(CommandView::Msetnx(paired(a.skip(1))))
    }
}

pub(crate) fn build_msetnx(args: &Vec<Bytes>) -> (r: Result<Command, String>)
    requires
        args.len() > 0,
    ensures
        built(r) == msetnx_spec(contents(args@)),
{
    if args.len() < 3 || (args.len() - 1) % 2 != 0 {
        return Err("wrong number of arguments for 'msetnx' command".to_owned());
    }
    Ok(Command::Msetnx(pairs_from(args, 1)))
}

/// What `DELEX` builds from its arguments.
pub open spec fn delex_spec(a: Seq<Seq<u8>>) -> Result<CommandView, Seq<char>> {
    if a.len() != 2 && a.len() != 4 {
        Err("wrong number of arguments for 'delex' command"@)
    } else if a.len() == 4 {
        let op = upper_word(a[2]);
        if op != "IFEQ"@ && op != "IFNE"@ && op != "IFDEQ"@ && op != "IFDNE"@ && op != "IFGT"@ && op != "IFLT"@ {
            Err("Invalid condition for 'delex' command"@)
        } else {
            Ok(CommandView::Delex { key: a[1], condition: Some((op, a[3])) })
        }
    } else {
        Ok(CommandView::Delex { key: a[1], condition: None })
    }
}

pub(crate) fn build_delex(args: &Vec<Bytes>) -> (r: Result<Command, String>)
    requires
        args.len() > 0,
    ensures
        built(r) == delex_spec(contents(args@)),
{
    if args.len() != 2 && args.len() != 4 {
        return Err("wrong number of arguments for 'delex' command".to_owned());
    }
    if args.len() == 4 {
        let op: String = upper(&args[2]);
        if !same_text(&op, "IFEQ") && !same_text(&op, "IFNE") && !same_text(&op, "IFDEQ") && !same_text(&op, "IFDNE") && !same_text(&op, "IFGT") && !same_text(&op, "IFLT") {
            return Err("Invalid condition for 'delex' command".to_owned());
        }
        Ok(Command::Delex { key: args[1].clone(), condition: Some((op, args[3].clone())) })
    } else {
        Ok(Command::Delex { key: args[1].clone(), condition: None })
    }
}

/// What `SCAN` makes of its arguments from `i` on, given what came before them.
pub open spec fn scan_options(
    a: Seq<Seq<u8>>,
    pattern: Option<Seq<u8>>,
    count: Option<usize>,
    i: int,
) -> Result<(Option<Seq<u8>>, Option<usize>), Seq<char>>
    decreases a.len() - i,
{
    if i >= a.len() {
        Ok((pattern, count))
    } else {
        let opt = upper_word(a[i]);
        if opt == "MATCH"@ {
            if a.len() - i <= 1 {
                Err("syntax error"@)
            } else {
                let pattern = Some(a[i + 1]);
                let i: int = i + 2;
                scan_options(a, pattern, count, i)
            }
        } else if opt == "COUNT"@ {
            if a.len() - i <= 1 {
                Err("syntax error"@)
            } else {
                match usize_of(a[i + 1]) {
                    None => Err("value is not an integer or out of range"@),
                    Some(n) => {
                        let count = Some(n);
                        let i: int = i + 2;
                        scan_options(a, pattern, count, i)
                    },
                }
            }
        } else if opt == "TYPE"@ {
            if a.len() - i <= 1 {
                Err("syntax error"@)
            } else {
                let i: int = i + 2;
                scan_options(a, pattern, count, i)
            }
        } else {
            Err("syntax error"@)
        }
    }
}

/// What `SCAN` builds from its arguments.
pub open spec fn scan_spec(a: Seq<Seq<u8>>) -> Result<CommandView, Seq<char>> {
    if a.len() < 2 {
        Err("wrong number of arguments for 'scan' command"@)
    } else {
        match u64_of(a[1]) {
            None => Err("value is not an integer or out of range"@),
            Some(cursor) => {
                let pattern: Option<Seq<u8>> = None;
                let count: Option<usize> = None;
                let i: int = 2;
                match scan_options(a, pattern, count, i) {
                    Err(e) => Err(e),
                    Ok((pattern, count)) => {
                        Ok(CommandView::Scan { cursor, pattern, count })
                    },
                }
            },
        }
    }
}

#[verifier::loop_isolation(false)]
pub(crate) fn build_scan(args: &Vec<Bytes>) -> (r: Result<Command, String>)
    requires
        args.len() > 0,
    ensures
        built(r) == scan_spec(contents(args@)),
{
    if args.len() < 2 {
        return Err("wrong number of arguments for 'scan' command".to_owned());
    }
    let cursor: u64 = match read_u64(args[1].as_ref()) {
        Some(v) => v,
        None => return Err("value is not an integer or out of range".to_owned()),
    };
    let mut pattern: Option<Bytes> = None;
    let mut count: Option<usize> = None;
    let mut i: usize = 2;
    let ghost goal_scan_options = scan_options(
        contents(args@),
        content_opt(pattern),
        count,
        i as int,
    );
    while i < args.len()
        invariant
            i <= args.len(),
            scan_options(
                contents(args@),
                content_opt(pattern),
                count,
                i as int,
            ) == goal_scan_options,
        decreases args.len() - i,
    {
        let opt: String = upper(&args[i]);
        if same_text(&opt, "MATCH") {
            if args.len() - i <= 1 {
                return Err("syntax error".to_owned());
            }
            pattern = Some(args[i + 1].clone());
            i = i + 2;
        } else if same_text(&opt, "COUNT") {
            if args.len() - i <= 1 {
                return Err("syntax error".to_owned());
            }
            let n: usize = match read_usize(args[i + 1].as_ref()) {
                Some(v) => v,
                None => return Err("value is not an integer or out of range".to_owned()),
            };
            count = Some(n);
            i = i + 2;
        } else if same_text(&opt, "TYPE") {
            if args.len() - i <= 1 {
                return Err("syntax error".to_owned());
            }
            i = i + 2;
        } else {
            return Err("syntax error".to_owned());
        }
    }
    Ok(Command::Scan { cursor, pattern, count })
}

/// What `RESTORE` makes of its arguments from `i` on, given what came before them.
pub open spec fn restore_options(
    a: Seq<Seq<u8>>,
    replace: bool,
    absttl: bool,
    i: int,
) -> Result<(bool, bool), Seq<char>>
    decreases a.len() - i,
{
    if i >= a.len() {
        Ok((replace, absttl))
    } else {
        let opt = upper_word(a[i]);
        if opt == "REPLACE"@ {
            let replace = true;
            let i: int = i + 1;
            restore_options(a, replace, absttl, i)
        } else if opt == "ABSTTL"@ {
            let absttl = true;
            let i: int = i + 1;
            restore_options(a, replace, absttl, i)
        } else if opt == "IDLETIME"@ || opt == "FREQ"@ {
            if a.len() - i <= 1 {
                Err("syntax error"@)
            } else {
                let i: int = i + 2;
                restore_options(a, replace, absttl, i)
            }
        } else {
            Err("syntax error"@)
        }
    }
}

/// What `RESTORE` builds from its arguments.
pub open spec fn restore_spec(a: Seq<Seq<u8>>) -> Result<CommandView, Seq<char>> {
    if a.len() < 4 {
        Err("wrong number of arguments for 'restore' command"@)
    } else {
        match u64_of(a[2]) {
            None => Err("value is not an integer or out of range"@),
            Some(ttl_ms) => {
                let replace = false;
                let absttl = false;
                let i: int = 4;
                match restore_options(a, replace, absttl, i) {
                    Err(e) => Err(e),
                    Ok((replace, absttl)) => {
                        Ok(CommandView::Restore {
                            key: a[1],
                            ttl_ms,
                            serialized: a[3],
                            replace,
                            absttl,
                        })
                    },
                }
            },
        }
    }
}

#[verifier::loop_isolation(false)]
pub(crate) fn build_restore(args: &Vec<Bytes>) -> (r: Result<Command, String>)
    requires
        args.len() > 0,
    ensures
        built(r) == restore_spec(contents(args@)),
{
    if args.len() < 4 {
        return Err("wrong number of arguments for 'restore' command".to_owned());
    }
    let ttl_ms: u64 = match read_u64(args[2].as_ref()) {
        Some(v) => v,
        None => return Err("value is not an integer or out of range".to_owned()),
    };
    let mut replace: bool = false;
    let mut absttl: bool = false;
    let mut i: usize = 4;
    let ghost goal_restore_options = restore_options(contents(args@), replace, absttl, i as int);
    while i < args.len()
        invariant
            i <= args.len(),
            restore_options(contents(args@), replace, absttl, i as int) == goal_restore_options,
        decreases args.len() - i,
    {
        let opt: String = upper(&args[i]);
        if same_text(&opt, "REPLACE") {
            replace = true;
            i = i + 1;
        } else if same_text(&opt, "ABSTTL") {
            absttl = true;
            i = i + 1;
        } else if same_text(&opt, "IDLETIME") || same_text(&opt, "FREQ") {
            if args.len() - i <= 1 {
                return Err("syntax error".to_owned());
            }
            i = i + 2;
        } else {
            return Err("syntax error".to_owned());
        }
    }
    Ok(Command::Restore {
        key: args[1].clone(),
        ttl_ms,
        serialized: args[3].clone(),
        replace,
        absttl,
    })
}

/// The commands on keys, expiry times and transactions: the command that `name` stands for among them, if it is one.
pub open spec fn keyspace_command_spec(
    name: Seq<char>,
    a: Seq<Seq<u8>>,
    env: &ParseEnv,
) -> Option<Result<CommandView, Seq<char>>> {
    if name == "TYPE"@ {
        Some(type_spec(a))
    } else if name == "DIGEST"@ {
        Some(digest_spec(a))
    } else if name == "GETDEL"@ {
        Some(getdel_spec(a))
    } else if name == "STRLEN"@ {
        Some(strlen_spec(a))
    } else if name == "DUMP"@ {
        Some(dump_spec(a))
    } else if name == "KEYS"@ {
        Some(keys_spec(a))
    } else if name == "STICKY"@ {
        Some(sticky_spec(a))
    } else if name == "DBSIZE"@ {
        Some(dbsize_spec(a))
    } else if name == "RANDOMKEY"@ {
        Some(randomkey_spec(a))
    } else if name == "MULTI"@ {
        Some(multi_spec(a))
    } else if name == "EXEC"@ {
        Some(exec_spec(a))
    } else if name == "DISCARD"@ {
        Some(discard_spec(a))
    } else if name == "UNWATCH"@ {
        Some(unwatch_spec(a))
    } else if name == "TOUCH"@ {
        Some(touch_spec(a))
    } else if name == "STICK"@ {
        Some(stick_spec(a))
    } else if name == "UNSTICK"@ {
        Some(unstick_spec(a))
    } else if name == "WATCH"@ {
        Some(watch_spec(a))
    } else if name == "SETNX"@ {
        Some(setnx_spec(a))
    } else if name == "GETSET"@ {
        Some(getset_spec(a))
    } else if name == "APPEND"@ {
        Some(append_spec(a))
    } else if name == "SELECT"@ {
        Some(select_spec(a))
    } else if name == "EXPIREAT"@ {
        Some(expireat_spec(a, env))
    } else if name == "PEXPIREAT"@ {
        Some(pexpireat_spec(a, env))
    } else if name == "EXPIRETIME"@ {
        Some(expiretime_spec(a))
    } else if name == "PEXPIRETIME"@ {
        Some(pexpiretime_spec(a))
    } else if name == "RENAME"@ {
        Some(rename_spec(a))
    } else if name == "RENAMENX"@ {
        Some(renamenx_spec(a))
    } else if name == "FLUSHDB"@ {
        Some(flushdb_spec(a))
    } else if name == "FLUSHALL"@ {
        Some(flushall_spec(a))
    } else if name == "SETEX"@ {
        Some(setex_spec(a))
    } else if name == "PSETEX"@ {
        Some(psetex_spec(a))
    } else if name == "MSETNX"@ {
        Some(msetnx_spec(a))
    } else if name == "DELEX"@ {
        Some(delex_spec(a))
    } else if name == "SCAN"@ {
        Some(scan_spec(a))
    } else if name == "RESTORE"@ {
        Some(restore_spec(a))
    } else {
        None
    }
}

pub(crate) fn keyspace_command(
    name: &str,
    args: &Vec<Bytes>,
    env: &ParseEnv,
) -> (r: Option<Result<Command, String>>)
    requires
        args.len() > 0,
    ensures
        built_opt(r) == keyspace_command_spec(name@, contents(args@), env),
{
    if same_text(name, "TYPE") {
        Some(build_type(args))
    } else if same_text(name, "DIGEST") {
        Some(build_digest(args))
    } else if same_text(name, "GETDEL") {
        Some(build_getdel(args))
    } else if same_text(name, "STRLEN") {
        Some(build_strlen(args))
    } else if same_text(name, "DUMP") {
        Some(build_dump(args))
    } else if same_text(name, "KEYS") {
        Some(build_keys(args))
    } else if same_text(name, "STICKY") {
        Some(build_sticky(args))
    } else if same_text(name, "DBSIZE") {
        Some(build_dbsize(args))
    } else if same_text(name, "RANDOMKEY") {
        Some(build_randomkey(args))
    } else if same_text(name, "MULTI") {
        Some(build_multi(args))
    } else if same_text(name, "EXEC") {
        Some(build_exec(args))
    } else if same_text(name, "DISCARD") {
        Some(build_discard(args))
    } else if same_text(name, "UNWATCH") {
        Some(build_unwatch(args))
    } else if same_text(name, "TOUCH") {
        Some(build_touch(args))
    } else if same_text(name, "STICK") {
        Some(build_stick(args))
    } else if same_text(name, "UNSTICK") {
        Some(build_unstick(args))
    } else if same_text(name, "WATCH") {
        Some(build_watch(args))
    } else if same_text(name, "SETNX") {
        Some(build_setnx(args))
    } else if same_text(name, "GETSET") {
        Some(build_getset(args))
    } else if same_text(name, "APPEND") {
        Some(build_append(args))
    } else if same_text(name, "SELECT") {
        Some(build_select(args))
    } else if same_text(name, "EXPIREAT") {
        Some(build_expireat(args, env))
    } else if same_text(name, "PEXPIREAT") {
        Some(build_pexpireat(args, env))
    } else if same_text(name, "EXPIRETIME") {
        Some(build_expiretime(args))
    } else if same_text(name, "PEXPIRETIME") {
        Some(build_pexpiretime(args))
    } else if same_text(name, "RENAME") {
        Some(build_rename(args))
    } else if same_text(name, "RENAMENX") {
        Some(build_renamenx(args))
    } else if same_text(name, "FLUSHDB") {
        Some(build_flushdb(args))
    } else if same_text(name, "FLUSHALL") {
        Some(build_flushall(args))
    } else if same_text(name, "SETEX") {
        Some(build_setex(args))
    } else if same_text(name, "PSETEX") {
        Some(build_psetex(args))
    } else if same_text(name, "MSETNX") {
        Some(build_msetnx(args))
    } else if same_text(name, "DELEX") {
        Some(build_delex(args))
    } else if same_text(name, "SCAN") {
        Some(build_scan(args))
    } else if same_text(name, "RESTORE") {
        Some(build_restore(args))
    } else {
        None
    }
}

} // verus!
