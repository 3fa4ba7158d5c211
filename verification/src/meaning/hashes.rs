//! What the commands on hashes stand for.
use vstd::prelude::*;

use crate::build::named_command_spec;
use crate::build::hashes::{
    hdel_spec, hexists_spec, hget_spec, hgetall_spec, hgetdel_spec, hincrby_spec,
    hincrbyfloat_spec, hkeys_spec, hlen_spec, hmget_spec, hmset_spec, hrandfield_spec, hscan_spec,
    hset_spec, hsetnx_spec, hstrlen_spec, hvals_spec,
};
use crate::build::naming::{lemma_hashes_codes, lemma_reach_hashes};
use crate::command::CommandView;
use crate::lists::paired;
use crate::numbers::{i64_of, usize_of};
use crate::readings::{ParseEnv, redis_double_of};
use crate::resp::unnamed;
use crate::text::{spells, upper_word};
use super::{called, lemma_called, makes, refuses, verdict};

verus! {

/// What `HSET` stands for.
pub proof fn law_hset(a: Seq<Seq<u8>>, env: &ParseEnv)
    requires
        called(a, "HSET"@),
    ensures
        (a.len() < 4 || (a.len() - 2) % 2 != 0) ==>
            refuses(a, env, "wrong number of arguments for 'hset' command"@),
        a.len() >= 4 && (a.len() - 2) % 2 == 0 ==>
            makes(a, env, CommandView::Hset { key: a[1], fields: paired(a.skip(2)) }),
{
    reveal(verdict);
    lemma_called(a);
    assert(named_command_spec(upper_word(a[0]), unnamed(a), env) == hset_spec(unnamed(a))) by {
        lemma_reach_hashes(upper_word(a[0]), unnamed(a), env);
        lemma_hashes_codes();
    }
}

/// What `HSETNX` stands for.
pub proof fn law_hsetnx(a: Seq<Seq<u8>>, env: &ParseEnv)
    requires
        called(a, "HSETNX"@),
    ensures
        a.len() != 4 ==> refuses(a, env, "wrong number of arguments for 'hsetnx' command"@),
        a.len() == 4 ==> makes(a, env, CommandView::Hsetnx { key: a[1], field: a[2], value: a[3] }),
{
    reveal(verdict);
    lemma_called(a);
    assert(named_command_spec(upper_word(a[0]), unnamed(a), env) == hsetnx_spec(unnamed(a))) by {
        lemma_reach_hashes(upper_word(a[0]), unnamed(a), env);
        lemma_hashes_codes();
    }
}

/// What `HMSET` stands for.
pub proof fn law_hmset(a: Seq<Seq<u8>>, env: &ParseEnv)
    requires
        called(a, "HMSET"@),
    ensures
        (a.len() < 4 || (a.len() - 2) % 2 != 0) ==>
            refuses(a, env, "wrong number of arguments for 'hmset' command"@),
        a.len() >= 4 && (a.len() - 2) % 2 == 0 ==>
            makes(a, env, CommandView::Hmset { key: a[1], fields: paired(a.skip(2)) }),
{
    reveal(verdict);
    lemma_called(a);
    assert(named_command_spec(upper_word(a[0]), unnamed(a), env) == hmset_spec(unnamed(a))) by {
        lemma_reach_hashes(upper_word(a[0]), unnamed(a), env);
        lemma_hashes_codes();
    }
}

/// What `HGET` stands for.
pub proof fn law_hget(a: Seq<Seq<u8>>, env: &ParseEnv)
    requires
        called(a, "HGET"@),
    ensures
        a.len() != 3 ==> refuses(a, env, "wrong number of arguments for 'hget' command"@),
        a.len() == 3 ==> makes(a, env, CommandView::Hget { key: a[1], field: a[2] }),
{
    reveal(verdict);
    lemma_called(a);
    assert(named_command_spec(upper_word(a[0]), unnamed(a), env) == hget_spec(unnamed(a))) by {
        lemma_reach_hashes(upper_word(a[0]), unnamed(a), env);
        lemma_hashes_codes();
    }
}

/// What `HMGET` stands for.
pub proof fn law_hmget(a: Seq<Seq<u8>>, env: &ParseEnv)
    requires
        called(a, "HMGET"@),
    ensures
        a.len() < 3 ==> refuses(a, env, "wrong number of arguments for 'hmget' command"@),
        a.len() >= 3 ==> makes(a, env, CommandView::Hmget { key: a[1], fields: a.skip(2) }),
{
    reveal(verdict);
    lemma_called(a);
    assert(named_command_spec(upper_word(a[0]), unnamed(a), env) == hmget_spec(unnamed(a))) by {
        lemma_reach_hashes(upper_word(a[0]), unnamed(a), env);
        lemma_hashes_codes();
    }
}

/// What `HDEL` stands for.
pub proof fn law_hdel(a: Seq<Seq<u8>>, env: &ParseEnv)
    requires
        called(a, "HDEL"@),
    ensures
        a.len() < 3 ==> refuses(a, env, "wrong number of arguments for 'hdel' command"@),
        a.len() >= 3 ==> makes(a, env, CommandView::Hdel { key: a[1], fields: a.skip(2) }),
{
    reveal(verdict);
    lemma_called(a);
    assert(named_command_spec(upper_word(a[0]), unnamed(a), env) == hdel_spec(unnamed(a))) by {
        lemma_reach_hashes(upper_word(a[0]), unnamed(a), env);
        lemma_hashes_codes();
    }
}

/// What `HEXISTS` stands for.
pub proof fn law_hexists(a: Seq<Seq<u8>>, env: &ParseEnv)
    requires
        called(a, "HEXISTS"@),
    ensures
        a.len() != 3 ==> refuses(a, env, "wrong number of arguments for 'hexists' command"@),
        a.len() == 3 ==> makes(a, env, CommandView::Hexists { key: a[1], field: a[2] }),
{
    reveal(verdict);
    lemma_called(a);
    assert(named_command_spec(upper_word(a[0]), unnamed(a), env) == hexists_spec(unnamed(a))) by {
        lemma_reach_hashes(upper_word(a[0]), unnamed(a), env);
        lemma_hashes_codes();
    }
}

/// What `HLEN` stands for.
pub proof fn law_hlen(a: Seq<Seq<u8>>, env: &ParseEnv)
    requires
        called(a, "HLEN"@),
    ensures
        a.len() != 2 ==> refuses(a, env, "wrong number of arguments for 'hlen' command"@),
        a.len() == 2 ==> makes(a, env, CommandView::Hlen(a[1])),
{
    reveal(verdict);
    lemma_called(a);
    assert(named_command_spec(upper_word(a[0]), unnamed(a), env) == hlen_spec(unnamed(a))) by {
        lemma_reach_hashes(upper_word(a[0]), unnamed(a), env);
        lemma_hashes_codes();
    }
}

/// What `HGETALL` stands for.
pub proof fn law_hgetall(a: Seq<Seq<u8>>, env: &ParseEnv)
    requires
        called(a, "HGETALL"@),
    ensures
        a.len() != 2 ==> refuses(a, env, "wrong number of arguments for 'hgetall' command"@),
        a.len() == 2 ==> makes(a, env, CommandView::Hgetall(a[1])),
{
    reveal(verdict);
    lemma_called(a);
    assert(named_command_spec(upper_word(a[0]), unnamed(a), env) == hgetall_spec(unnamed(a))) by {
        lemma_reach_hashes(upper_word(a[0]), unnamed(a), env);
        lemma_hashes_codes();
    }
}

/// What `HKEYS` stands for.
pub proof fn law_hkeys(a: Seq<Seq<u8>>, env: &ParseEnv)
    requires
        called(a, "HKEYS"@),
    ensures
        a.len() != 2 ==> refuses(a, env, "wrong number of arguments for 'hkeys' command"@),
        a.len() == 2 ==> makes(a, env, CommandView::Hkeys(a[1])),
{
    reveal(verdict);
    lemma_called(a);
    assert(named_command_spec(upper_word(a[0]), unnamed(a), env) == hkeys_spec(unnamed(a))) by {
        lemma_reach_hashes(upper_word(a[0]), unnamed(a), env);
        lemma_hashes_codes();
    }
}

/// What `HVALS` stands for.
pub proof fn law_hvals(a: Seq<Seq<u8>>, env: &ParseEnv)
    requires
        called(a, "HVALS"@),
    ensures
        a.len() != 2 ==> refuses(a, env, "wrong number of arguments for 'hvals' command"@),
        a.len() == 2 ==> makes(a, env, CommandView::Hvals(a[1])),
{
    reveal(verdict);
    lemma_called(a);
    assert(named_command_spec(upper_word(a[0]), unnamed(a), env) == hvals_spec(unnamed(a))) by {
        lemma_reach_hashes(upper_word(a[0]), unnamed(a), env);
        lemma_hashes_codes();
    }
}

/// What `HSTRLEN` stands for.
pub proof fn law_hstrlen(a: Seq<Seq<u8>>, env: &ParseEnv)
    requires
        called(a, "HSTRLEN"@),
    ensures
        a.len() != 3 ==> refuses(a, env, "wrong number of arguments for 'hstrlen' command"@),
        a.len() == 3 ==> makes(a, env, CommandView::Hstrlen { key: a[1], field: a[2] }),
{
    reveal(verdict);
    lemma_called(a);
    assert(named_command_spec(upper_word(a[0]), unnamed(a), env) == hstrlen_spec(unnamed(a))) by {
        lemma_reach_hashes(upper_word(a[0]), unnamed(a), env);
        lemma_hashes_codes();
    }
}

/// What `HGETDEL` stands for.
pub proof fn law_hgetdel(a: Seq<Seq<u8>>, env: &ParseEnv)
    requires
        called(a, "HGETDEL"@),
    ensures
        a.len() < 5 ==> refuses(a, env, "wrong number of arguments for 'hgetdel' command"@),
        a.len() >= 5 && !spells(a[2], "FIELDS"@) ==>
            refuses(a, env, "ERR argument FIELDS is missing or invalid"@),
        a.len() >= 5 && spells(a[2], "FIELDS"@) && i64_of(a[3]) is None ==>
            refuses(a, env, "ERR Number of fields must be a positive integer"@),
        a.len() >= 5 && spells(a[2], "FIELDS"@) && i64_of(a[3]) is Some && i64_of(a[3])->0 <= 0 ==>
            refuses(a, env, "ERR Number of fields must be a positive integer"@),
        a.len() >= 5 && spells(a[2], "FIELDS"@) && i64_of(a[3]) is Some && i64_of(a[3])->0 > 0
            && a.len() - 4 != i64_of(a[3])->0 as usize ==>
            refuses(a, env, "ERR numfields parameter must match the number of arguments"@),
        a.len() >= 5 && spells(a[2], "FIELDS"@) && i64_of(a[3]) is Some && i64_of(a[3])->0 > 0
            && a.len() - 4 == i64_of(a[3])->0 as usize ==>
            makes(a, env, CommandView::Hgetdel { key: a[1], fields: a.skip(4) }),
{
    reveal(verdict);
    lemma_called(a);
    assert(named_command_spec(upper_word(a[0]), unnamed(a), env) == hgetdel_spec(unnamed(a))) by {
        lemma_reach_hashes(upper_word(a[0]), unnamed(a), env);
        lemma_hashes_codes();
    }
}

/// What `HINCRBY` stands for.
pub proof fn law_hincrby(a: Seq<Seq<u8>>, env: &ParseEnv)
    requires
        called(a, "HINCRBY"@),
    ensures
        a.len() != 4 ==> refuses(a, env, "wrong number of arguments for 'hincrby' command"@),
        a.len() == 4 && i64_of(a[3]) is None ==>
            refuses(a, env, "value is not an integer or out of range"@),
        a.len() == 4 && i64_of(a[3]) is Some ==>
            makes(
                a,
                env,
                CommandView::Hincrby { key: a[1], field: a[2], increment: i64_of(a[3])->0 },
            ),
{
    reveal(verdict);
    lemma_called(a);
    assert(named_command_spec(upper_word(a[0]), unnamed(a), env) == hincrby_spec(unnamed(a))) by {
        lemma_reach_hashes(upper_word(a[0]), unnamed(a), env);
        lemma_hashes_codes();
    }
}

/// What `HINCRBYFLOAT` stands for.
pub proof fn law_hincrbyfloat(a: Seq<Seq<u8>>, env: &ParseEnv)
    requires
        called(a, "HINCRBYFLOAT"@),
    ensures
        a.len() != 4 ==> refuses(a, env, "wrong number of arguments for 'hincrbyfloat' command"@),
        a.len() == 4 && redis_double_of(env, a[3]) is None ==>
            refuses(a, env, "value is not a valid float"@),
        a.len() == 4 && redis_double_of(env, a[3]) is Some
            && ((redis_double_of(env, a[3])->0).nan() || (redis_double_of(env, a[3])->0).infinite()) ==>
            refuses(a, env, "value is NaN or Infinity"@),
        a.len() == 4 && redis_double_of(env, a[3]) is Some
            && !((redis_double_of(env, a[3])->0).nan())
            && !((redis_double_of(env, a[3])->0).infinite()) ==>
            makes(
                a,
                env,
                CommandView::Hincrbyfloat {
                    key: a[1],
                    field: a[2],
                    increment: redis_double_of(env, a[3])->0,
                },
            ),
{
    reveal(verdict);
    lemma_called(a);
    assert(named_command_spec(
        upper_word(a[0]),
        unnamed(a),
        env,
    ) == hincrbyfloat_spec(unnamed(a), env)) by {
        lemma_reach_hashes(upper_word(a[0]), unnamed(a), env);
        lemma_hashes_codes();
    }
}

/// What `HRANDFIELD` stands for.
pub proof fn law_hrandfield(a: Seq<Seq<u8>>, env: &ParseEnv)
    requires
        called(a, "HRANDFIELD"@),
    ensures
        (a.len() < 2 || a.len() > 4) ==>
            refuses(a, env, "wrong number of arguments for 'hrandfield' command"@),
        a.len() >= 3 && a.len() <= 4 && i64_of(a[2]) is None ==>
            refuses(a, env, "value is not an integer or out of range"@),
        a.len() >= 3 && a.len() <= 4 && i64_of(a[2]) is Some && i64_of(a[2])->0 == i64::MIN ==>
            refuses(a, env, "value is out of range"@),
        i64_of(a[2]) is Some && i64_of(a[2])->0 != i64::MIN && a.len() == 4
            && !spells(a[3], "WITHVALUES"@) ==>
            refuses(a, env, "syntax error"@),
        i64_of(a[2]) is Some && i64_of(a[2])->0 != i64::MIN && a.len() == 4
            && spells(a[3], "WITHVALUES"@)
            && (i64_of(a[2])->0 < -4611686018427387904 || i64_of(a[2])->0 > 4611686018427387903) ==>
            refuses(a, env, "value is out of range"@),
        i64_of(a[2]) is Some && i64_of(a[2])->0 != i64::MIN && a.len() == 4
            && spells(a[3], "WITHVALUES"@) && i64_of(a[2])->0 >= -4611686018427387904
            && i64_of(a[2])->0 <= 4611686018427387903 ==>
            makes(
                a,
                env,
                CommandView::Hrandfield {
                    key: a[1],
                    count: Some(i64_of(a[2])->0),
                    with_values: true,
                },
            ),
        a.len() >= 3 && a.len() <= 4 && i64_of(a[2]) is Some && i64_of(a[2])->0 != i64::MIN
            && a.len() != 4 ==>
            makes(
                a,
                env,
                CommandView::Hrandfield {
                    key: a[1],
                    count: Some(i64_of(a[2])->0),
                    with_values: false,
                },
            ),
        a.len() >= 2 && a.len() <= 4 && a.len() < 3 ==>
            makes(a, env, CommandView::Hrandfield { key: a[1], count: None, with_values: false }),
{
    reveal(verdict);
    lemma_called(a);
    assert(named_command_spec(
        upper_word(a[0]),
        unnamed(a),
        env,
    ) == hrandfield_spec(unnamed(a))) by {
        lemma_reach_hashes(upper_word(a[0]), unnamed(a), env);
        lemma_hashes_codes();
    }
}

/// What `HSCAN` stands for, up to its options.
pub proof fn law_hscan(a: Seq<Seq<u8>>, env: &ParseEnv)
    requires
        called(a, "HSCAN"@),
    ensures
        a.len() < 3 ==> refuses(a, env, "wrong number of arguments for 'hscan' command"@),
        a.len() >= 3 && usize_of(a[2]) is None ==>
            refuses(a, env, "value is not an integer or out of range"@),
{
    reveal(verdict);
    lemma_called(a);
    assert(named_command_spec(upper_word(a[0]), unnamed(a), env) == hscan_spec(unnamed(a))) by {
        lemma_reach_hashes(upper_word(a[0]), unnamed(a), env);
        lemma_hashes_codes();
    }
}

} // verus!
