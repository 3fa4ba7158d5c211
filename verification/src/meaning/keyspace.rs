//! What the commands on keys, expiry and values stand for.
use vstd::prelude::*;

use crate::build::named_command_spec;
use crate::build::keyspace::{
    append_spec, dbsize_spec, delex_spec, digest_spec, discard_spec, dump_spec, exec_spec,
    expireat_spec, expiretime_spec, flushall_spec, flushdb_spec, getdel_spec, getset_spec,
    keys_spec, msetnx_spec, multi_spec, pexpireat_spec, pexpiretime_spec, psetex_spec,
    randomkey_spec, rename_spec, renamenx_spec, restore_spec, scan_spec, select_spec, setex_spec,
    setnx_spec, stick_spec, sticky_spec, strlen_spec, touch_spec, type_spec, unstick_spec,
    unwatch_spec, watch_spec,
};
use crate::build::naming::{lemma_keyspace_codes, lemma_reach_keyspace, name_code};
use crate::command::{CommandView, SetConditionView};
use crate::lists::paired;
use crate::numbers::{u32_of, u64_of};
use crate::readings::ParseEnv;
use crate::resp::unnamed;
use crate::text::upper_word;
use crate::time::{Duration, millis_to, span_to};
use super::{called, lemma_called, makes, refuses, verdict};

verus! {

/// What `TYPE` stands for.
pub proof fn law_type(a: Seq<Seq<u8>>, env: &ParseEnv)
    requires
        called(a, "TYPE"@),
    ensures
        a.len() != 2 ==> refuses(a, env, "wrong number of arguments for 'type' command"@),
        a.len() == 2 ==> makes(a, env, CommandView::Type(a[1])),
{
    reveal(verdict);
    lemma_called(a);
    assert(named_command_spec(upper_word(a[0]), unnamed(a), env) == type_spec(unnamed(a))) by {
        lemma_reach_keyspace(upper_word(a[0]), unnamed(a), env);
        lemma_keyspace_codes();
    }
}

/// What `DIGEST` stands for.
pub proof fn law_digest(a: Seq<Seq<u8>>, env: &ParseEnv)
    requires
        called(a, "DIGEST"@),
    ensures
        a.len() != 2 ==> refuses(a, env, "wrong number of arguments for 'digest' command"@),
        a.len() == 2 ==> makes(a, env, CommandView::Digest(a[1])),
{
    reveal(verdict);
    lemma_called(a);
    assert(named_command_spec(upper_word(a[0]), unnamed(a), env) == digest_spec(unnamed(a))) by {
        lemma_reach_keyspace(upper_word(a[0]), unnamed(a), env);
        lemma_keyspace_codes();
    }
}

/// What `GETDEL` stands for.
pub proof fn law_getdel(a: Seq<Seq<u8>>, env: &ParseEnv)
    requires
        called(a, "GETDEL"@),
    ensures
        a.len() != 2 ==> refuses(a, env, "wrong number of arguments for 'getdel' command"@),
        a.len() == 2 ==> makes(a, env, CommandView::Getdel(a[1])),
{
    reveal(verdict);
    lemma_called(a);
    assert(named_command_spec(upper_word(a[0]), unnamed(a), env) == getdel_spec(unnamed(a))) by {
        lemma_reach_keyspace(upper_word(a[0]), unnamed(a), env);
        lemma_keyspace_codes();
    }
}

/// What `STRLEN` stands for.
pub proof fn law_strlen(a: Seq<Seq<u8>>, env: &ParseEnv)
    requires
        called(a, "STRLEN"@),
    ensures
        a.len() != 2 ==> refuses(a, env, "wrong number of arguments for 'strlen' command"@),
        a.len() == 2 ==> makes(a, env, CommandView::Strlen(a[1])),
{
    reveal(verdict);
    lemma_called(a);
    assert(named_command_spec(upper_word(a[0]), unnamed(a), env) == strlen_spec(unnamed(a))) by {
        lemma_reach_keyspace(upper_word(a[0]), unnamed(a), env);
        lemma_keyspace_codes();
    }
}

/// What `DUMP` stands for.
pub proof fn law_dump(a: Seq<Seq<u8>>, env: &ParseEnv)
    requires
        called(a, "DUMP"@),
    ensures
        a.len() != 2 ==> refuses(a, env, "wrong number of arguments for 'dump' command"@),
        a.len() == 2 ==> makes(a, env, CommandView::Dump(a[1])),
{
    reveal(verdict);
    lemma_called(a);
    assert(named_command_spec(upper_word(a[0]), unnamed(a), env) == dump_spec(unnamed(a))) by {
        lemma_reach_keyspace(upper_word(a[0]), unnamed(a), env);
        lemma_keyspace_codes();
    }
}

/// What `KEYS` stands for.
pub proof fn law_keys(a: Seq<Seq<u8>>, env: &ParseEnv)
    requires
        called(a, "KEYS"@),
    ensures
        a.len() != 2 ==> refuses(a, env, "wrong number of arguments for 'keys' command"@),
        a.len() == 2 ==> makes(a, env, CommandView::Keys(a[1])),
{
    reveal(verdict);
    lemma_called(a);
    assert(named_command_spec(upper_word(a[0]), unnamed(a), env) == keys_spec(unnamed(a))) by {
        lemma_reach_keyspace(upper_word(a[0]), unnamed(a), env);
        lemma_keyspace_codes();
    }
}

/// What `STICKY` stands for.
pub proof fn law_sticky(a: Seq<Seq<u8>>, env: &ParseEnv)
    requires
        called(a, "STICKY"@),
    ensures
        a.len() != 2 ==> refuses(a, env, "wrong number of arguments for 'sticky' command"@),
        a.len() == 2 ==> makes(a, env, CommandView::Sticky(a[1])),
{
    reveal(verdict);
    lemma_called(a);
    assert(named_command_spec(upper_word(a[0]), unnamed(a), env) == sticky_spec(unnamed(a))) by {
        lemma_reach_keyspace(upper_word(a[0]), unnamed(a), env);
        lemma_keyspace_codes();
    }
}

/// What `DBSIZE` stands for.
pub proof fn law_dbsize(a: Seq<Seq<u8>>, env: &ParseEnv)
    requires
        called(a, "DBSIZE"@),
    ensures
        a.len() != 1 ==> refuses(a, env, "wrong number of arguments for 'dbsize' command"@),
        a.len() == 1 ==> makes(a, env, CommandView::Dbsize),
{
    reveal(verdict);
    lemma_called(a);
    assert(named_command_spec(upper_word(a[0]), unnamed(a), env) == dbsize_spec(unnamed(a))) by {
        lemma_reach_keyspace(upper_word(a[0]), unnamed(a), env);
        lemma_keyspace_codes();
    }
}

/// What `RANDOMKEY` stands for.
pub proof fn law_randomkey(a: Seq<Seq<u8>>, env: &ParseEnv)
    requires
        called(a, "RANDOMKEY"@),
    ensures
        a.len() != 1 ==> refuses(a, env, "wrong number of arguments for 'randomkey' command"@),
        a.len() == 1 ==> makes(a, env, CommandView::Randomkey),
{
    reveal(verdict);
    lemma_called(a);
    assert(named_command_spec(upper_word(a[0]), unnamed(a), env) == randomkey_spec(unnamed(a))) by {
        lemma_reach_keyspace(upper_word(a[0]), unnamed(a), env);
        lemma_keyspace_codes();
    }
}

/// What `MULTI` stands for.
pub proof fn law_multi(a: Seq<Seq<u8>>, env: &ParseEnv)
    requires
        called(a, "MULTI"@),
    ensures
        a.len() != 1 ==> refuses(a, env, "wrong number of arguments for 'multi' command"@),
        a.len() == 1 ==> makes(a, env, CommandView::Multi),
{
    reveal(verdict);
    lemma_called(a);
    assert(named_command_spec(upper_word(a[0]), unnamed(a), env) == multi_spec(unnamed(a))) by {
        lemma_reach_keyspace(upper_word(a[0]), unnamed(a), env);
        lemma_keyspace_codes();
    }
}

/// What `EXEC` stands for.
pub proof fn law_exec(a: Seq<Seq<u8>>, env: &ParseEnv)
    requires
        called(a, "EXEC"@),
    ensures
        a.len() != 1 ==> refuses(a, env, "wrong number of arguments for 'exec' command"@),
        a.len() == 1 ==> makes(a, env, CommandView::Exec),
{
    reveal(verdict);
    lemma_called(a);
    assert(named_command_spec(upper_word(a[0]), unnamed(a), env) == exec_spec(unnamed(a))) by {
        lemma_reach_keyspace(upper_word(a[0]), unnamed(a), env);
        lemma_keyspace_codes();
    }
}

/// What `DISCARD` stands for.
pub proof fn law_discard(a: Seq<Seq<u8>>, env: &ParseEnv)
    requires
        called(a, "DISCARD"@),
    ensures
        a.len() != 1 ==> refuses(a, env, "wrong number of arguments for 'discard' command"@),
        a.len() == 1 ==> makes(a, env, CommandView::Discard),
{
    reveal(verdict);
    lemma_called(a);
    assert(named_command_spec(upper_word(a[0]), unnamed(a), env) == discard_spec(unnamed(a))) by {
        lemma_reach_keyspace(upper_word(a[0]), unnamed(a), env);
        lemma_keyspace_codes();
    }
}

/// What `UNWATCH` stands for.
pub proof fn law_unwatch(a: Seq<Seq<u8>>, env: &ParseEnv)
    requires
        called(a, "UNWATCH"@),
    ensures
        a.len() != 1 ==> refuses(a, env, "wrong number of arguments for 'unwatch' command"@),
        a.len() == 1 ==> makes(a, env, CommandView::Unwatch),
{
    reveal(verdict);
    lemma_called(a);
    assert(named_command_spec(upper_word(a[0]), unnamed(a), env) == unwatch_spec(unnamed(a))) by {
        lemma_reach_keyspace(upper_word(a[0]), unnamed(a), env);
        lemma_keyspace_codes();
    }
}

/// What `TOUCH` stands for.
pub proof fn law_touch(a: Seq<Seq<u8>>, env: &ParseEnv)
    requires
        called(a, "TOUCH"@),
    ensures
        a.len() < 2 ==> refuses(a, env, "wrong number of arguments for 'touch' command"@),
        a.len() >= 2 ==> makes(a, env, CommandView::Touch(a.skip(1))),
{
    reveal(verdict);
    lemma_called(a);
    assert(named_command_spec(upper_word(a[0]), unnamed(a), env) == touch_spec(unnamed(a))) by {
        lemma_reach_keyspace(upper_word(a[0]), unnamed(a), env);
        lemma_keyspace_codes();
    }
}

/// What `STICK` stands for.
pub proof fn law_stick(a: Seq<Seq<u8>>, env: &ParseEnv)
    requires
        called(a, "STICK"@),
    ensures
        a.len() < 2 ==> refuses(a, env, "wrong number of arguments for 'stick' command"@),
        a.len() >= 2 ==> makes(a, env, CommandView::Stick(a.skip(1))),
{
    reveal(verdict);
    lemma_called(a);
    assert(named_command_spec(upper_word(a[0]), unnamed(a), env) == stick_spec(unnamed(a))) by {
        lemma_reach_keyspace(upper_word(a[0]), unnamed(a), env);
        lemma_keyspace_codes();
    }
}

/// What `UNSTICK` stands for.
pub proof fn law_unstick(a: Seq<Seq<u8>>, env: &ParseEnv)
    requires
        called(a, "UNSTICK"@),
    ensures
        a.len() < 2 ==> refuses(a, env, "wrong number of arguments for 'unstick' command"@),
        a.len() >= 2 ==> makes(a, env, CommandView::Unstick(a.skip(1))),
{
    reveal(verdict);
    lemma_called(a);
    assert(named_command_spec(upper_word(a[0]), unnamed(a), env) == unstick_spec(unnamed(a))) by {
        lemma_reach_keyspace(upper_word(a[0]), unnamed(a), env);
        lemma_keyspace_codes();
    }
}

/// What `WATCH` stands for.
pub proof fn law_watch(a: Seq<Seq<u8>>, env: &ParseEnv)
    requires
        called(a, "WATCH"@),
    ensures
        a.len() < 2 ==> refuses(a, env, "wrong number of arguments for 'watch' command"@),
        a.len() >= 2 ==> makes(a, env, CommandView::Watch(a.skip(1))),
{
    reveal(verdict);
    lemma_called(a);
    assert(named_command_spec(upper_word(a[0]), unnamed(a), env) == watch_spec(unnamed(a))) by {
        lemma_reach_keyspace(upper_word(a[0]), unnamed(a), env);
        lemma_keyspace_codes();
    }
}

/// What `SETNX` stands for.
pub proof fn law_setnx(a: Seq<Seq<u8>>, env: &ParseEnv)
    requires
        called(a, "SETNX"@),
    ensures
        a.len() != 3 ==> refuses(a, env, "wrong number of arguments for 'setnx' command"@),
        a.len() == 3 ==> makes(a, env, CommandView::Setnx { key: a[1], value: a[2] }),
{
    reveal(verdict);
    lemma_called(a);
    assert(named_command_spec(upper_word(a[0]), unnamed(a), env) == setnx_spec(unnamed(a))) by {
        lemma_reach_keyspace(upper_word(a[0]), unnamed(a), env);
        lemma_keyspace_codes();
    }
}

/// What `GETSET` stands for.
pub proof fn law_getset(a: Seq<Seq<u8>>, env: &ParseEnv)
    requires
        called(a, "GETSET"@),
    ensures
        a.len() != 3 ==> refuses(a, env, "wrong number of arguments for 'getset' command"@),
        a.len() == 3 ==> makes(a, env, CommandView::Getset { key: a[1], value: a[2] }),
{
    reveal(verdict);
    lemma_called(a);
    assert(named_command_spec(upper_word(a[0]), unnamed(a), env) == getset_spec(unnamed(a))) by {
        lemma_reach_keyspace(upper_word(a[0]), unnamed(a), env);
        lemma_keyspace_codes();
    }
}

/// What `APPEND` stands for.
pub proof fn law_append(a: Seq<Seq<u8>>, env: &ParseEnv)
    requires
        called(a, "APPEND"@),
    ensures
        a.len() != 3 ==> refuses(a, env, "wrong number of arguments for 'append' command"@),
        a.len() == 3 ==> makes(a, env, CommandView::Append { key: a[1], value: a[2] }),
{
    reveal(verdict);
    lemma_called(a);
    assert(named_command_spec(upper_word(a[0]), unnamed(a), env) == append_spec(unnamed(a))) by {
        lemma_reach_keyspace(upper_word(a[0]), unnamed(a), env);
        lemma_keyspace_codes();
    }
}

/// What `SELECT` stands for.
pub proof fn law_select(a: Seq<Seq<u8>>, env: &ParseEnv)
    requires
        called(a, "SELECT"@),
    ensures
        a.len() != 2 ==> refuses(a, env, "wrong number of arguments for 'select' command"@),
        a.len() == 2 && u32_of(a[1]) is None ==>
            refuses(a, env, "value is not an integer or out of range"@),
        a.len() == 2 && u32_of(a[1]) is Some ==>
            makes(a, env, CommandView::Select(u32_of(a[1])->0)),
{
    reveal(verdict);
    lemma_called(a);
    assert(named_command_spec(upper_word(a[0]), unnamed(a), env) == select_spec(unnamed(a))) by {
        lemma_reach_keyspace(upper_word(a[0]), unnamed(a), env);
        lemma_keyspace_codes();
    }
}

/// What `EXPIREAT` stands for.
pub proof fn law_expireat(a: Seq<Seq<u8>>, env: &ParseEnv)
    requires
        called(a, "EXPIREAT"@),
    ensures
        a.len() != 3 ==> refuses(a, env, "wrong number of arguments for 'expireat' command"@),
        a.len() == 3 && u64_of(a[2]) is None ==>
            refuses(a, env, "value is not an integer or out of range"@),
        a.len() == 3 && u64_of(a[2]) is Some ==>
            makes(a, env, CommandView::Expire(a[1], span_to(u64_of(a[2])->0, (env.now_ms / 1000)))),
{
    reveal(verdict);
    lemma_called(a);
    assert(named_command_spec(
        upper_word(a[0]),
        unnamed(a),
        env,
    ) == expireat_spec(unnamed(a), env)) by {
        lemma_reach_keyspace(upper_word(a[0]), unnamed(a), env);
        lemma_keyspace_codes();
    }
}

/// What `PEXPIREAT` stands for.
pub proof fn law_pexpireat(a: Seq<Seq<u8>>, env: &ParseEnv)
    requires
        called(a, "PEXPIREAT"@),
    ensures
        a.len() != 3 ==> refuses(a, env, "wrong number of arguments for 'pexpireat' command"@),
        a.len() == 3 && u64_of(a[2]) is None ==>
            refuses(a, env, "value is not an integer or out of range"@),
        a.len() == 3 && u64_of(a[2]) is Some ==>
            makes(a, env, CommandView::Expire(a[1], millis_to(u64_of(a[2])->0, env.now_ms))),
{
    reveal(verdict);
    lemma_called(a);
    assert(named_command_spec(
        upper_word(a[0]),
        unnamed(a),
        env,
    ) == pexpireat_spec(unnamed(a), env)) by {
        lemma_reach_keyspace(upper_word(a[0]), unnamed(a), env);
        lemma_keyspace_codes();
    }
}

/// What `EXPIRETIME` stands for.
pub proof fn law_expiretime(a: Seq<Seq<u8>>, env: &ParseEnv)
    requires
        called(a, "EXPIRETIME"@),
    ensures
        a.len() != 2 ==> refuses(a, env, "wrong number of arguments for 'expiretime' command"@),
        a.len() == 2 ==> makes(a, env, CommandView::Expiretime(a[1], false)),
{
    reveal(verdict);
    lemma_called(a);
    assert(named_command_spec(
        upper_word(a[0]),
        unnamed(a),
        env,
    ) == expiretime_spec(unnamed(a))) by {
        lemma_reach_keyspace(upper_word(a[0]), unnamed(a), env);
        lemma_keyspace_codes();
    }
}

/// What `PEXPIRETIME` stands for.
pub proof fn law_pexpiretime(a: Seq<Seq<u8>>, env: &ParseEnv)
    requires
        called(a, "PEXPIRETIME"@),
    ensures
        a.len() != 2 ==> refuses(a, env, "wrong number of arguments for 'pexpiretime' command"@),
        a.len() == 2 ==> makes(a, env, CommandView::Expiretime(a[1], true)),
{
    reveal(verdict);
    lemma_called(a);
    assert(named_command_spec(
        upper_word(a[0]),
        unnamed(a),
        env,
    ) == pexpiretime_spec(unnamed(a))) by {
        lemma_reach_keyspace(upper_word(a[0]), unnamed(a), env);
        lemma_keyspace_codes();
    }
}

/// What `RENAME` stands for.
pub proof fn law_rename(a: Seq<Seq<u8>>, env: &ParseEnv)
    requires
        called(a, "RENAME"@),
    ensures
        a.len() != 3 ==> refuses(a, env, "wrong number of arguments for 'rename' command"@),
        a.len() == 3 ==> makes(a, env, CommandView::Rename { key: a[1], newkey: a[2], nx: false }),
{
    reveal(verdict);
    lemma_called(a);
    assert(named_command_spec(upper_word(a[0]), unnamed(a), env) == rename_spec(unnamed(a))) by {
        lemma_reach_keyspace(upper_word(a[0]), unnamed(a), env);
        lemma_keyspace_codes();
    }
}

/// What `RENAMENX` stands for.
pub proof fn law_renamenx(a: Seq<Seq<u8>>, env: &ParseEnv)
    requires
        called(a, "RENAMENX"@),
    ensures
        a.len() != 3 ==> refuses(a, env, "wrong number of arguments for 'renamenx' command"@),
        a.len() == 3 ==> makes(a, env, CommandView::Rename { key: a[1], newkey: a[2], nx: true }),
{
    reveal(verdict);
    lemma_called(a);
    assert(named_command_spec(upper_word(a[0]), unnamed(a), env) == renamenx_spec(unnamed(a))) by {
        lemma_reach_keyspace(upper_word(a[0]), unnamed(a), env);
        lemma_keyspace_codes();
    }
}

/// What `FLUSHDB` stands for.
pub proof fn law_flushdb(a: Seq<Seq<u8>>, env: &ParseEnv)
    requires
        called(a, "FLUSHDB"@),
    ensures
        makes(a, env, CommandView::Flushdb),
{
    reveal(verdict);
    lemma_called(a);
    assert(named_command_spec(upper_word(a[0]), unnamed(a), env) == flushdb_spec(unnamed(a))) by {
        lemma_reach_keyspace(upper_word(a[0]), unnamed(a), env);
        lemma_keyspace_codes();
    }
}

/// What `FLUSHALL` stands for.
pub proof fn law_flushall(a: Seq<Seq<u8>>, env: &ParseEnv)
    requires
        called(a, "FLUSHALL"@),
    ensures
        makes(a, env, CommandView::Flushall),
{
    reveal(verdict);
    lemma_called(a);
    assert(named_command_spec(upper_word(a[0]), unnamed(a), env) == flushall_spec(unnamed(a))) by {
        lemma_reach_keyspace(upper_word(a[0]), unnamed(a), env);
        lemma_keyspace_codes();
    }
}

/// What `SETEX` stands for.
pub proof fn law_setex(a: Seq<Seq<u8>>, env: &ParseEnv)
    requires
        called(a, "SETEX"@),
    ensures
        a.len() != 4 ==> refuses(a, env, "wrong number of arguments for 'setex' command"@),
        a.len() == 4 && u64_of(a[2]) is None ==>
            refuses(a, env, "value is not an integer or out of range"@),
        a.len() == 4 && u64_of(a[2]) is Some ==>
            makes(
                a,
                env,
                CommandView::SetKey {
                    key: a[1],
                    value: a[3],
                    expire_in: Some(Duration::of_secs(u64_of(a[2])->0)),
                    condition: SetConditionView::Always,
                    get: false,
                    keepttl: false,
                    past_expired: false,
                },
            ),
{
    reveal(verdict);
    lemma_called(a);
    assert(named_command_spec(upper_word(a[0]), unnamed(a), env) == setex_spec(unnamed(a))) by {
        lemma_reach_keyspace(upper_word(a[0]), unnamed(a), env);
        lemma_keyspace_codes();
    }
}

/// What `PSETEX` stands for.
pub proof fn law_psetex(a: Seq<Seq<u8>>, env: &ParseEnv)
    requires
        called(a, "PSETEX"@),
    ensures
        a.len() != 4 ==> refuses(a, env, "wrong number of arguments for 'psetex' command"@),
        a.len() == 4 && u64_of(a[2]) is None ==>
            refuses(a, env, "value is not an integer or out of range"@),
        a.len() == 4 && u64_of(a[2]) is Some ==>
            makes(
                a,
                env,
                CommandView::SetKey {
                    key: a[1],
                    value: a[3],
                    expire_in: Some(Duration::of_millis(u64_of(a[2])->0)),
                    condition: SetConditionView::Always,
                    get: false,
                    keepttl: false,
                    past_expired: false,
                },
            ),
{
    reveal(verdict);
    lemma_called(a);
    assert(named_command_spec(upper_word(a[0]), unnamed(a), env) == psetex_spec(unnamed(a))) by {
        lemma_reach_keyspace(upper_word(a[0]), unnamed(a), env);
        lemma_keyspace_codes();
    }
}

/// What `MSETNX` stands for.
pub proof fn law_msetnx(a: Seq<Seq<u8>>, env: &ParseEnv)
    requires
        called(a, "MSETNX"@),
    ensures
        (a.len() < 3 || (a.len() - 1) % 2 != 0) ==>
            refuses(a, env, "wrong number of arguments for 'msetnx' command"@),
        a.len() >= 3 && (a.len() - 1) % 2 == 0 ==>
            makes(a, env, CommandView::Msetnx(paired(a.skip(1)))),
{
    reveal(verdict);
    lemma_called(a);
    assert(named_command_spec(upper_word(a[0]), unnamed(a), env) == msetnx_spec(unnamed(a))) by {
        lemma_reach_keyspace(upper_word(a[0]), unnamed(a), env);
        lemma_keyspace_codes();
    }
}

/// What `DELEX` stands for.
pub proof fn law_delex(a: Seq<Seq<u8>>, env: &ParseEnv)
    requires
        called(a, "DELEX"@),
    ensures
        a.len() != 2 && a.len() != 4 ==>
            refuses(a, env, "wrong number of arguments for 'delex' command"@),
        ((a.len() == 2 || a.len() == 4)) && a.len() == 4 && upper_word(a[2]) != "IFEQ"@
            && upper_word(a[2]) != "IFNE"@ && upper_word(a[2]) != "IFDEQ"@
            && upper_word(a[2]) != "IFDNE"@ && upper_word(a[2]) != "IFGT"@
            && upper_word(a[2]) != "IFLT"@ ==>
            refuses(a, env, "Invalid condition for 'delex' command"@),
        ((a.len() == 2 || a.len() == 4)) && a.len() == 4
            && ((upper_word(a[2]) == "IFEQ"@ || upper_word(a[2]) == "IFNE"@ || upper_word(a[2]) == "IFDEQ"@ || upper_word(a[2]) == "IFDNE"@ || upper_word(a[2]) == "IFGT"@ || upper_word(a[2]) == "IFLT"@)) ==>
            makes(
                a,
                env,
                CommandView::Delex { key: a[1], condition: Some((upper_word(a[2]), a[3])) },
            ),
        ((a.len() == 2 || a.len() == 4)) && a.len() != 4 ==>
            makes(a, env, CommandView::Delex { key: a[1], condition: None }),
{
    reveal(verdict);
    lemma_called(a);
    assert(named_command_spec(upper_word(a[0]), unnamed(a), env) == delex_spec(unnamed(a))) by {
        lemma_reach_keyspace(upper_word(a[0]), unnamed(a), env);
        lemma_keyspace_codes();
    }
    reveal(name_code);
    reveal_strlit("IFDEQ");
    reveal_strlit("IFDNE");
    reveal_strlit("IFEQ");
    reveal_strlit("IFGT");
    reveal_strlit("IFLT");
    reveal_strlit("IFNE");
    assert(name_code("IFDEQ"@) == 8056615418400405);
    assert(name_code("IFDNE"@) == 8056630518125205);
    assert(name_code("IFEQ"@) == 8056635551059804);
    assert(name_code("IFGT"@) == 8056640584275804);
    assert(name_code("IFLT"@) == 8056640584403804);
    assert(name_code("IFNE"@) == 8056615418631004);
}

/// What `SCAN` stands for, up to its options.
pub proof fn law_scan(a: Seq<Seq<u8>>, env: &ParseEnv)
    requires
        called(a, "SCAN"@),
    ensures
        a.len() < 2 ==> refuses(a, env, "wrong number of arguments for 'scan' command"@),
        a.len() >= 2 && u64_of(a[1]) is None ==>
            refuses(a, env, "value is not an integer or out of range"@),
{
    reveal(verdict);
    lemma_called(a);
    assert(named_command_spec(upper_word(a[0]), unnamed(a), env) == scan_spec(unnamed(a))) by {
        lemma_reach_keyspace(upper_word(a[0]), unnamed(a), env);
        lemma_keyspace_codes();
    }
}

/// What `RESTORE` stands for, up to its options.
pub proof fn law_restore(a: Seq<Seq<u8>>, env: &ParseEnv)
    requires
        called(a, "RESTORE"@),
    ensures
        a.len() < 4 ==> refuses(a, env, "wrong number of arguments for 'restore' command"@),
        a.len() >= 4 && u64_of(a[2]) is None ==>
            refuses(a, env, "value is not an integer or out of range"@),
{
    reveal(verdict);
    lemma_called(a);
    assert(named_command_spec(upper_word(a[0]), unnamed(a), env) == restore_spec(unnamed(a))) by {
        lemma_reach_keyspace(upper_word(a[0]), unnamed(a), env);
        lemma_keyspace_codes();
    }
}

} // verus!
