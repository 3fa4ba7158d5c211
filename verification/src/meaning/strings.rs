//! What the commands on strings and on keys stand for.
use vstd::prelude::*;

use crate::build::named_command_spec;
use crate::build::naming::{lemma_reach_strings, lemma_strings_codes, name_code};
use crate::build::strings::{
    decr_spec, decrby_spec, del_spec, delete_spec, exists_spec, expire_spec, get_spec, getex_spec,
    getrange_spec, incr_spec, incrby_spec, incrbyfloat_spec, lcs_spec, mget_spec, mset_spec,
    msetex_spec, object_spec, persist_spec, pexpire_spec, ping_spec, pttl_spec, readonly_spec,
    readwrite_spec, set_spec, setrange_spec, substr_spec, ttl_spec, wait_spec, waitaof_spec,
};
use crate::command::{CommandView, ObjectSubcommandView};
use crate::lists::paired;
use crate::numbers::{i64_of, u64_of, usize_of};
use crate::readings::{ParseEnv, redis_double_of};
use crate::resp::unnamed;
use crate::text::{spells, upper_word};
use crate::time::Duration;
use super::{called, lemma_called, makes, refuses, verdict};

verus! {

/// What `GET` stands for.
pub proof fn law_get(a: Seq<Seq<u8>>, env: &ParseEnv)
    requires
        called(a, "GET"@),
    ensures
        a.len() < 2 ==> refuses(a, env, "wrong number of arguments for 'get' command"@),
        a.len() == 2 ==> makes(a, env, CommandView::Get(a[1])),
        a.len() >= 2 && a.len() != 2 ==>
            makes(a, env, CommandView::MemcachedGet { keys: a.skip(1) }),
{
    reveal(verdict);
    lemma_called(a);
    assert(named_command_spec(upper_word(a[0]), unnamed(a), env) == get_spec(unnamed(a))) by {
        lemma_reach_strings(upper_word(a[0]), unnamed(a), env);
        lemma_strings_codes();
    }
}

/// What `GETEX` stands for, up to its options.
pub proof fn law_getex(a: Seq<Seq<u8>>, env: &ParseEnv)
    requires
        called(a, "GETEX"@),
    ensures
        a.len() < 2 ==> refuses(a, env, "wrong number of arguments for 'getex' command"@),
{
    reveal(verdict);
    lemma_called(a);
    assert(named_command_spec(
        upper_word(a[0]),
        unnamed(a),
        env,
    ) == getex_spec(unnamed(a), env)) by {
        lemma_reach_strings(upper_word(a[0]), unnamed(a), env);
        lemma_strings_codes();
    }
}

/// What `SET` or `PUT` stands for, up to its options.
pub proof fn law_set(a: Seq<Seq<u8>>, env: &ParseEnv)
    requires
        called(a, "SET"@) || called(a, "PUT"@),
    ensures
        a.len() < 3 ==> refuses(a, env, "wrong number of arguments for 'set'/'put' command"@),
{
    reveal(verdict);
    lemma_called(a);
    assert(named_command_spec(upper_word(a[0]), unnamed(a), env) == set_spec(unnamed(a), env)) by {
        lemma_reach_strings(upper_word(a[0]), unnamed(a), env);
        lemma_strings_codes();
    }
}

/// What `MGET` stands for.
pub proof fn law_mget(a: Seq<Seq<u8>>, env: &ParseEnv)
    requires
        called(a, "MGET"@),
    ensures
        a.len() < 2 ==> refuses(a, env, "wrong number of arguments for 'mget' command"@),
        a.len() >= 2 ==> makes(a, env, CommandView::Mget(a.skip(1))),
{
    reveal(verdict);
    lemma_called(a);
    assert(named_command_spec(upper_word(a[0]), unnamed(a), env) == mget_spec(unnamed(a))) by {
        lemma_reach_strings(upper_word(a[0]), unnamed(a), env);
        lemma_strings_codes();
    }
}

/// What `MSET` stands for.
pub proof fn law_mset(a: Seq<Seq<u8>>, env: &ParseEnv)
    requires
        called(a, "MSET"@),
    ensures
        (a.len() < 3 || (a.len() - 1) % 2 != 0) ==>
            refuses(a, env, "wrong number of arguments for 'mset' command"@),
        a.len() >= 3 && (a.len() - 1) % 2 == 0 ==>
            makes(a, env, CommandView::Mset(paired(a.skip(1)))),
{
    reveal(verdict);
    lemma_called(a);
    assert(named_command_spec(upper_word(a[0]), unnamed(a), env) == mset_spec(unnamed(a))) by {
        lemma_reach_strings(upper_word(a[0]), unnamed(a), env);
        lemma_strings_codes();
    }
}

/// What `MSETEX` stands for, up to its options.
pub proof fn law_msetex(a: Seq<Seq<u8>>, env: &ParseEnv)
    requires
        called(a, "MSETEX"@),
    ensures
        a.len() < 2 ==> refuses(a, env, "wrong number of arguments for 'msetex' command"@),
        a.len() >= 2 && i64_of(a[1]) is None ==> refuses(a, env, "invalid numkeys value"@),
        a.len() >= 2 && i64_of(a[1]) is Some
            && (i64_of(a[1])->0 < 0 || i64_of(a[1])->0 > 2147483647) ==>
            refuses(a, env, "invalid numkeys value"@),
{
    reveal(verdict);
    lemma_called(a);
    assert(named_command_spec(
        upper_word(a[0]),
        unnamed(a),
        env,
    ) == msetex_spec(unnamed(a), env)) by {
        lemma_reach_strings(upper_word(a[0]), unnamed(a), env);
        lemma_strings_codes();
    }
}

/// What `LCS` stands for, up to its options.
pub proof fn law_lcs(a: Seq<Seq<u8>>, env: &ParseEnv)
    requires
        called(a, "LCS"@),
    ensures
        a.len() < 3 ==> refuses(a, env, "wrong number of arguments for 'lcs' command"@),
{
    reveal(verdict);
    lemma_called(a);
    assert(named_command_spec(upper_word(a[0]), unnamed(a), env) == lcs_spec(unnamed(a))) by {
        lemma_reach_strings(upper_word(a[0]), unnamed(a), env);
        lemma_strings_codes();
    }
}

/// What `DEL` or `UNLINK` stands for.
pub proof fn law_del(a: Seq<Seq<u8>>, env: &ParseEnv)
    requires
        called(a, "DEL"@) || called(a, "UNLINK"@),
    ensures
        a.len() < 2 ==> refuses(a, env, "wrong number of arguments for 'del' command"@),
        a.len() >= 2 ==> makes(a, env, CommandView::Del(a.skip(1))),
{
    reveal(verdict);
    lemma_called(a);
    assert(named_command_spec(upper_word(a[0]), unnamed(a), env) == del_spec(unnamed(a))) by {
        lemma_reach_strings(upper_word(a[0]), unnamed(a), env);
        lemma_strings_codes();
    }
}

/// What `DELETE` stands for.
pub proof fn law_delete(a: Seq<Seq<u8>>, env: &ParseEnv)
    requires
        called(a, "DELETE"@),
    ensures
        a.len() < 2 ==> refuses(a, env, "wrong number of arguments for 'del' command"@),
        a.len() >= 2 ==>
            makes(
                a,
                env,
                CommandView::MemcachedDelete {
                    key: a[1],
                    noreply: a.len() > 2 && spells(a[2], "NOREPLY"@),
                },
            ),
{
    reveal(verdict);
    lemma_called(a);
    assert(named_command_spec(upper_word(a[0]), unnamed(a), env) == delete_spec(unnamed(a))) by {
        lemma_reach_strings(upper_word(a[0]), unnamed(a), env);
        lemma_strings_codes();
    }
}

/// What `READONLY` stands for.
pub proof fn law_readonly(a: Seq<Seq<u8>>, env: &ParseEnv)
    requires
        called(a, "READONLY"@),
    ensures
        makes(a, env, CommandView::Readonly),
{
    reveal(verdict);
    lemma_called(a);
    assert(named_command_spec(upper_word(a[0]), unnamed(a), env) == readonly_spec(unnamed(a))) by {
        lemma_reach_strings(upper_word(a[0]), unnamed(a), env);
        lemma_strings_codes();
    }
}

/// What `READWRITE` stands for.
pub proof fn law_readwrite(a: Seq<Seq<u8>>, env: &ParseEnv)
    requires
        called(a, "READWRITE"@),
    ensures
        makes(a, env, CommandView::Readwrite),
{
    reveal(verdict);
    lemma_called(a);
    assert(named_command_spec(upper_word(a[0]), unnamed(a), env) == readwrite_spec(unnamed(a))) by {
        lemma_reach_strings(upper_word(a[0]), unnamed(a), env);
        lemma_strings_codes();
    }
}

/// What `WAIT` stands for.
pub proof fn law_wait(a: Seq<Seq<u8>>, env: &ParseEnv)
    requires
        called(a, "WAIT"@),
    ensures
        a.len() < 3 ==> refuses(a, env, "wrong number of arguments for 'wait' command"@),
        a.len() >= 3 && usize_of(a[1]) is None ==>
            refuses(a, env, "value is not an integer or out of range"@),
        a.len() >= 3 && usize_of(a[1]) is Some && u64_of(a[2]) is None ==>
            refuses(a, env, "value is not an integer or out of range"@),
        a.len() >= 3 && usize_of(a[1]) is Some && u64_of(a[2]) is Some ==>
            makes(
                a,
                env,
                CommandView::Wait { numreplicas: usize_of(a[1])->0, timeout: u64_of(a[2])->0 },
            ),
{
    reveal(verdict);
    lemma_called(a);
    assert(named_command_spec(upper_word(a[0]), unnamed(a), env) == wait_spec(unnamed(a))) by {
        lemma_reach_strings(upper_word(a[0]), unnamed(a), env);
        lemma_strings_codes();
    }
}

/// What `WAITAOF` stands for.
pub proof fn law_waitaof(a: Seq<Seq<u8>>, env: &ParseEnv)
    requires
        called(a, "WAITAOF"@),
    ensures
        a.len() < 4 ==> refuses(a, env, "wrong number of arguments for 'waitaof' command"@),
        a.len() >= 4 && usize_of(a[1]) is None ==>
            refuses(a, env, "value is not an integer or out of range"@),
        a.len() >= 4 && usize_of(a[1]) is Some && usize_of(a[2]) is None ==>
            refuses(a, env, "value is not an integer or out of range"@),
        a.len() >= 4 && usize_of(a[1]) is Some && usize_of(a[2]) is Some
            && u64_of(a[3]) is None ==>
            refuses(a, env, "value is not an integer or out of range"@),
        a.len() >= 4 && usize_of(a[1]) is Some && usize_of(a[2]) is Some
            && u64_of(a[3]) is Some ==>
            makes(
                a,
                env,
                CommandView::WaitAof {
                    numlocal: usize_of(a[1])->0,
                    numreplicas: usize_of(a[2])->0,
                    timeout: u64_of(a[3])->0,
                },
            ),
{
    reveal(verdict);
    lemma_called(a);
    assert(named_command_spec(upper_word(a[0]), unnamed(a), env) == waitaof_spec(unnamed(a))) by {
        lemma_reach_strings(upper_word(a[0]), unnamed(a), env);
        lemma_strings_codes();
    }
}

/// What `OBJECT` stands for.
pub proof fn law_object(a: Seq<Seq<u8>>, env: &ParseEnv)
    requires
        called(a, "OBJECT"@),
    ensures
        a.len() < 2 ==> refuses(a, env, "wrong number of arguments for 'object' command"@),
        a.len() >= 2 && upper_word(a[1]) == "ENCODING"@ && a.len() < 3 ==>
            refuses(a, env, "wrong number of arguments for 'object encoding' command"@),
        a.len() >= 3 && upper_word(a[1]) == "ENCODING"@ ==>
            makes(a, env, CommandView::Object(ObjectSubcommandView::Encoding(a[2]))),
        a.len() >= 2 && upper_word(a[1]) == "FREQ"@ && a.len() < 3 ==>
            refuses(a, env, "wrong number of arguments for 'object freq' command"@),
        a.len() >= 3 && upper_word(a[1]) == "FREQ"@ ==>
            makes(a, env, CommandView::Object(ObjectSubcommandView::Freq(a[2]))),
        a.len() >= 2 && upper_word(a[1]) == "IDLETIME"@ && a.len() < 3 ==>
            refuses(a, env, "wrong number of arguments for 'object idletime' command"@),
        a.len() >= 3 && upper_word(a[1]) == "IDLETIME"@ ==>
            makes(a, env, CommandView::Object(ObjectSubcommandView::Idletime(a[2]))),
        a.len() >= 2 && upper_word(a[1]) == "REFCOUNT"@ && a.len() < 3 ==>
            refuses(a, env, "wrong number of arguments for 'object refcount' command"@),
        a.len() >= 3 && upper_word(a[1]) == "REFCOUNT"@ ==>
            makes(a, env, CommandView::Object(ObjectSubcommandView::Refcount(a[2]))),
        a.len() >= 2 && upper_word(a[1]) == "HELP"@ ==>
            makes(a, env, CommandView::Object(ObjectSubcommandView::Help)),
        a.len() >= 2 && upper_word(a[1]) != "ENCODING"@ && upper_word(a[1]) != "FREQ"@
            && upper_word(a[1]) != "IDLETIME"@ && upper_word(a[1]) != "REFCOUNT"@
            && upper_word(a[1]) != "HELP"@ ==>
            makes(a, env, CommandView::Unknown("OBJECT "@ + upper_word(a[1]))),
{
    reveal(verdict);
    lemma_called(a);
    assert(named_command_spec(upper_word(a[0]), unnamed(a), env) == object_spec(unnamed(a))) by {
        lemma_reach_strings(upper_word(a[0]), unnamed(a), env);
        lemma_strings_codes();
    }
    reveal(name_code);
    reveal_strlit("ENCODING");
    reveal_strlit("FREQ");
    reveal_strlit("HELP");
    reveal_strlit("IDLETIME");
    reveal_strlit("REFCOUNT");
    assert(name_code("ENCODING"@) == 7620263996986508);
    assert(name_code("FREQ"@) == 7731936023483404);
    assert(name_code("HELP"@) == 7946253214010104);
    assert(name_code("IDLETIME"@) == 8055756903559308);
    assert(name_code("REFCOUNT"@) == 9045743588514108);
}

/// What `EXISTS` stands for.
pub proof fn law_exists(a: Seq<Seq<u8>>, env: &ParseEnv)
    requires
        called(a, "EXISTS"@),
    ensures
        a.len() < 2 ==> refuses(a, env, "wrong number of arguments for 'exists' command"@),
        a.len() >= 2 ==> makes(a, env, CommandView::Exists(a.skip(1))),
{
    reveal(verdict);
    lemma_called(a);
    assert(named_command_spec(upper_word(a[0]), unnamed(a), env) == exists_spec(unnamed(a))) by {
        lemma_reach_strings(upper_word(a[0]), unnamed(a), env);
        lemma_strings_codes();
    }
}

/// What `INCR` stands for.
pub proof fn law_incr(a: Seq<Seq<u8>>, env: &ParseEnv)
    requires
        called(a, "INCR"@),
    ensures
        a.len() < 2 ==> refuses(a, env, "wrong number of arguments for 'incr' command"@),
        a.len() >= 3 && u64_of(a[2]) is Some ==>
            makes(
                a,
                env,
                CommandView::MemcachedIncr {
                    key: a[1],
                    value: u64_of(a[2])->0,
                    noreply: a.len() > 3 && spells(a[3], "NOREPLY"@),
                },
            ),
        a.len() >= 3 && u64_of(a[2]) is None ==> makes(a, env, CommandView::IncrBy(a[1], 1)),
        a.len() >= 2 && a.len() < 3 ==> makes(a, env, CommandView::IncrBy(a[1], 1)),
{
    reveal(verdict);
    lemma_called(a);
    assert(named_command_spec(upper_word(a[0]), unnamed(a), env) == incr_spec(unnamed(a))) by {
        lemma_reach_strings(upper_word(a[0]), unnamed(a), env);
        lemma_strings_codes();
    }
}

/// What `DECR` stands for.
pub proof fn law_decr(a: Seq<Seq<u8>>, env: &ParseEnv)
    requires
        called(a, "DECR"@),
    ensures
        a.len() < 2 ==> refuses(a, env, "wrong number of arguments for 'decr' command"@),
        a.len() >= 3 && u64_of(a[2]) is Some ==>
            makes(
                a,
                env,
                CommandView::MemcachedDecr {
                    key: a[1],
                    value: u64_of(a[2])->0,
                    noreply: a.len() > 3 && spells(a[3], "NOREPLY"@),
                },
            ),
        a.len() >= 3 && u64_of(a[2]) is None ==> makes(a, env, CommandView::IncrBy(a[1], -1i64)),
        a.len() >= 2 && a.len() < 3 ==> makes(a, env, CommandView::IncrBy(a[1], -1i64)),
{
    reveal(verdict);
    lemma_called(a);
    assert(named_command_spec(upper_word(a[0]), unnamed(a), env) == decr_spec(unnamed(a))) by {
        lemma_reach_strings(upper_word(a[0]), unnamed(a), env);
        lemma_strings_codes();
    }
}

/// What `INCRBY` stands for.
pub proof fn law_incrby(a: Seq<Seq<u8>>, env: &ParseEnv)
    requires
        called(a, "INCRBY"@),
    ensures
        a.len() < 3 ==> refuses(a, env, "wrong number of arguments for 'incrby' command"@),
        a.len() >= 3 && i64_of(a[2]) is None ==>
            refuses(a, env, "value is not an integer or out of range"@),
        a.len() >= 3 && i64_of(a[2]) is Some ==>
            makes(a, env, CommandView::IncrBy(a[1], i64_of(a[2])->0)),
{
    reveal(verdict);
    lemma_called(a);
    assert(named_command_spec(upper_word(a[0]), unnamed(a), env) == incrby_spec(unnamed(a))) by {
        lemma_reach_strings(upper_word(a[0]), unnamed(a), env);
        lemma_strings_codes();
    }
}

/// What `DECRBY` stands for.
pub proof fn law_decrby(a: Seq<Seq<u8>>, env: &ParseEnv)
    requires
        called(a, "DECRBY"@),
    ensures
        a.len() < 3 ==> refuses(a, env, "wrong number of arguments for 'decrby' command"@),
        a.len() >= 3 && i64_of(a[2]) is None ==>
            refuses(a, env, "value is not an integer or out of range"@),
        a.len() >= 3 && i64_of(a[2]) is Some && i64_of(a[2])->0 == -9223372036854775808 ==>
            makes(a, env, CommandView::IncrBy(a[1], i64_of(a[2])->0)),
        a.len() >= 3 && i64_of(a[2]) is Some && i64_of(a[2])->0 != -9223372036854775808 ==>
            makes(a, env, CommandView::IncrBy(a[1], (-i64_of(a[2])->0) as i64)),
{
    reveal(verdict);
    lemma_called(a);
    assert(named_command_spec(upper_word(a[0]), unnamed(a), env) == decrby_spec(unnamed(a))) by {
        lemma_reach_strings(upper_word(a[0]), unnamed(a), env);
        lemma_strings_codes();
    }
}

/// What `EXPIRE` stands for.
pub proof fn law_expire(a: Seq<Seq<u8>>, env: &ParseEnv)
    requires
        called(a, "EXPIRE"@),
    ensures
        a.len() < 3 ==> refuses(a, env, "wrong number of arguments for 'expire' command"@),
        a.len() >= 3 && u64_of(a[2]) is None ==>
            refuses(a, env, "value is not an integer or out of range"@),
        a.len() >= 3 && u64_of(a[2]) is Some ==>
            makes(a, env, CommandView::Expire(a[1], Duration::of_secs(u64_of(a[2])->0))),
{
    reveal(verdict);
    lemma_called(a);
    assert(named_command_spec(upper_word(a[0]), unnamed(a), env) == expire_spec(unnamed(a))) by {
        lemma_reach_strings(upper_word(a[0]), unnamed(a), env);
        lemma_strings_codes();
    }
}

/// What `PEXPIRE` stands for.
pub proof fn law_pexpire(a: Seq<Seq<u8>>, env: &ParseEnv)
    requires
        called(a, "PEXPIRE"@),
    ensures
        a.len() < 3 ==> refuses(a, env, "wrong number of arguments for 'pexpire' command"@),
        a.len() >= 3 && u64_of(a[2]) is None ==>
            refuses(a, env, "value is not an integer or out of range"@),
        a.len() >= 3 && u64_of(a[2]) is Some ==>
            makes(a, env, CommandView::Expire(a[1], Duration::of_millis(u64_of(a[2])->0))),
{
    reveal(verdict);
    lemma_called(a);
    assert(named_command_spec(upper_word(a[0]), unnamed(a), env) == pexpire_spec(unnamed(a))) by {
        lemma_reach_strings(upper_word(a[0]), unnamed(a), env);
        lemma_strings_codes();
    }
}

/// What `PERSIST` stands for.
pub proof fn law_persist(a: Seq<Seq<u8>>, env: &ParseEnv)
    requires
        called(a, "PERSIST"@),
    ensures
        a.len() < 2 ==> refuses(a, env, "wrong number of arguments for 'persist' command"@),
        a.len() >= 2 ==> makes(a, env, CommandView::Persist(a[1])),
{
    reveal(verdict);
    lemma_called(a);
    assert(named_command_spec(upper_word(a[0]), unnamed(a), env) == persist_spec(unnamed(a))) by {
        lemma_reach_strings(upper_word(a[0]), unnamed(a), env);
        lemma_strings_codes();
    }
}

/// What `TTL` stands for.
pub proof fn law_ttl(a: Seq<Seq<u8>>, env: &ParseEnv)
    requires
        called(a, "TTL"@),
    ensures
        a.len() < 2 ==> refuses(a, env, "wrong number of arguments for 'ttl' command"@),
        a.len() >= 2 ==> makes(a, env, CommandView::Ttl(a[1], false)),
{
    reveal(verdict);
    lemma_called(a);
    assert(named_command_spec(upper_word(a[0]), unnamed(a), env) == ttl_spec(unnamed(a))) by {
        lemma_reach_strings(upper_word(a[0]), unnamed(a), env);
        lemma_strings_codes();
    }
}

/// What `PTTL` stands for.
pub proof fn law_pttl(a: Seq<Seq<u8>>, env: &ParseEnv)
    requires
        called(a, "PTTL"@),
    ensures
        a.len() < 2 ==> refuses(a, env, "wrong number of arguments for 'pttl' command"@),
        a.len() >= 2 ==> makes(a, env, CommandView::Ttl(a[1], true)),
{
    reveal(verdict);
    lemma_called(a);
    assert(named_command_spec(upper_word(a[0]), unnamed(a), env) == pttl_spec(unnamed(a))) by {
        lemma_reach_strings(upper_word(a[0]), unnamed(a), env);
        lemma_strings_codes();
    }
}

/// What `PING` stands for.
pub proof fn law_ping(a: Seq<Seq<u8>>, env: &ParseEnv)
    requires
        called(a, "PING"@),
    ensures
        a.len() >= 2 ==> makes(a, env, CommandView::Ping(Some(a[1]))),
        a.len() <= 1 ==> makes(a, env, CommandView::Ping(None)),
{
    reveal(verdict);
    lemma_called(a);
    assert(named_command_spec(upper_word(a[0]), unnamed(a), env) == ping_spec(unnamed(a))) by {
        lemma_reach_strings(upper_word(a[0]), unnamed(a), env);
        lemma_strings_codes();
    }
}

/// What `INCRBYFLOAT` stands for.
pub proof fn law_incrbyfloat(a: Seq<Seq<u8>>, env: &ParseEnv)
    requires
        called(a, "INCRBYFLOAT"@),
    ensures
        a.len() != 3 ==> refuses(a, env, "wrong number of arguments for 'incrbyfloat' command"@),
        a.len() == 3 && redis_double_of(env, a[2]) is None ==>
            refuses(a, env, "value is not a valid float"@),
        a.len() == 3 && redis_double_of(env, a[2]) is Some
            && ((redis_double_of(env, a[2])->0).nan() || (redis_double_of(env, a[2])->0).infinite()) ==>
            refuses(a, env, "value is NaN or Infinity"@),
        a.len() == 3 && redis_double_of(env, a[2]) is Some
            && !((redis_double_of(env, a[2])->0).nan())
            && !((redis_double_of(env, a[2])->0).infinite()) ==>
            makes(
                a,
                env,
                CommandView::Incrbyfloat { key: a[1], increment: redis_double_of(env, a[2])->0 },
            ),
{
    reveal(verdict);
    lemma_called(a);
    assert(named_command_spec(
        upper_word(a[0]),
        unnamed(a),
        env,
    ) == incrbyfloat_spec(unnamed(a), env)) by {
        lemma_reach_strings(upper_word(a[0]), unnamed(a), env);
        lemma_strings_codes();
    }
}

/// What `SETRANGE` stands for.
pub proof fn law_setrange(a: Seq<Seq<u8>>, env: &ParseEnv)
    requires
        called(a, "SETRANGE"@),
    ensures
        a.len() != 4 ==> refuses(a, env, "wrong number of arguments for 'setrange' command"@),
        a.len() == 4 && usize_of(a[2]) is None ==>
            refuses(a, env, "value is not an integer or out of range"@),
        a.len() == 4 && usize_of(a[2]) is Some ==>
            makes(
                a,
                env,
                CommandView::Setrange { key: a[1], offset: usize_of(a[2])->0, value: a[3] },
            ),
{
    reveal(verdict);
    lemma_called(a);
    assert(named_command_spec(upper_word(a[0]), unnamed(a), env) == setrange_spec(unnamed(a))) by {
        lemma_reach_strings(upper_word(a[0]), unnamed(a), env);
        lemma_strings_codes();
    }
}

/// What `GETRANGE` stands for.
pub proof fn law_getrange(a: Seq<Seq<u8>>, env: &ParseEnv)
    requires
        called(a, "GETRANGE"@),
    ensures
        a.len() != 4 ==> refuses(a, env, "wrong number of arguments for 'getrange' command"@),
        a.len() == 4 && i64_of(a[2]) is None ==>
            refuses(a, env, "value is not an integer or out of range"@),
        a.len() == 4 && i64_of(a[2]) is Some && i64_of(a[3]) is None ==>
            refuses(a, env, "value is not an integer or out of range"@),
        a.len() == 4 && i64_of(a[2]) is Some && i64_of(a[3]) is Some ==>
            makes(
                a,
                env,
                CommandView::Getrange { key: a[1], start: i64_of(a[2])->0, end: i64_of(a[3])->0 },
            ),
{
    reveal(verdict);
    lemma_called(a);
    assert(named_command_spec(upper_word(a[0]), unnamed(a), env) == getrange_spec(unnamed(a))) by {
        lemma_reach_strings(upper_word(a[0]), unnamed(a), env);
        lemma_strings_codes();
    }
}

/// What `SUBSTR` stands for.
pub proof fn law_substr(a: Seq<Seq<u8>>, env: &ParseEnv)
    requires
        called(a, "SUBSTR"@),
    ensures
        a.len() != 4 ==> refuses(a, env, "wrong number of arguments for 'substr' command"@),
        a.len() == 4 && i64_of(a[2]) is None ==>
            refuses(a, env, "value is not an integer or out of range"@),
        a.len() == 4 && i64_of(a[2]) is Some && i64_of(a[3]) is None ==>
            refuses(a, env, "value is not an integer or out of range"@),
        a.len() == 4 && i64_of(a[2]) is Some && i64_of(a[3]) is Some ==>
            makes(
                a,
                env,
                CommandView::Getrange { key: a[1], start: i64_of(a[2])->0, end: i64_of(a[3])->0 },
            ),
{
    reveal(verdict);
    lemma_called(a);
    assert(named_command_spec(upper_word(a[0]), unnamed(a), env) == substr_spec(unnamed(a))) by {
        lemma_reach_strings(upper_word(a[0]), unnamed(a), env);
        lemma_strings_codes();
    }
}

} // verus!
