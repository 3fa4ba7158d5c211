//! What the commands on sets stand for.
use vstd::prelude::*;

use crate::build::named_command_spec;
use crate::build::naming::{lemma_reach_sets, lemma_sets_codes};
use crate::build::sets::{
    sadd_spec, scard_spec, sdiff_spec, sdiffcard_spec, sdiffstore_spec, sinter_spec,
    sintercard_spec, sinterstore_spec, sismember_spec, smembers_spec, smismember_spec, smove_spec,
    spop_spec, srandmember_spec, srem_spec, sscan_spec, sunion_spec, sunioncard_spec,
    sunionstore_spec,
};
use crate::command::CommandView;
use crate::numbers::{i64_of, usize_of};
use crate::readings::ParseEnv;
use crate::resp::unnamed;
use crate::text::upper_word;
use super::{called, lemma_called, makes, refuses, verdict};

verus! {

/// What `SADD` stands for.
pub proof fn law_sadd(a: Seq<Seq<u8>>, env: &ParseEnv)
    requires
        called(a, "SADD"@),
    ensures
        a.len() < 3 ==> refuses(a, env, "wrong number of arguments for 'sadd' command"@),
        a.len() >= 3 ==> makes(a, env, CommandView::Sadd { key: a[1], members: a.skip(2) }),
{
    reveal(verdict);
    lemma_called(a);
    assert(named_command_spec(upper_word(a[0]), unnamed(a), env) == sadd_spec(unnamed(a))) by {
        lemma_reach_sets(upper_word(a[0]), unnamed(a), env);
        lemma_sets_codes();
    }
}

/// What `SREM` stands for.
pub proof fn law_srem(a: Seq<Seq<u8>>, env: &ParseEnv)
    requires
        called(a, "SREM"@),
    ensures
        a.len() < 3 ==> refuses(a, env, "wrong number of arguments for 'srem' command"@),
        a.len() >= 3 ==> makes(a, env, CommandView::Srem { key: a[1], members: a.skip(2) }),
{
    reveal(verdict);
    lemma_called(a);
    assert(named_command_spec(upper_word(a[0]), unnamed(a), env) == srem_spec(unnamed(a))) by {
        lemma_reach_sets(upper_word(a[0]), unnamed(a), env);
        lemma_sets_codes();
    }
}

/// What `SMEMBERS` stands for.
pub proof fn law_smembers(a: Seq<Seq<u8>>, env: &ParseEnv)
    requires
        called(a, "SMEMBERS"@),
    ensures
        a.len() != 2 ==> refuses(a, env, "wrong number of arguments for 'smembers' command"@),
        a.len() == 2 ==> makes(a, env, CommandView::Smembers(a[1])),
{
    reveal(verdict);
    lemma_called(a);
    assert(named_command_spec(upper_word(a[0]), unnamed(a), env) == smembers_spec(unnamed(a))) by {
        lemma_reach_sets(upper_word(a[0]), unnamed(a), env);
        lemma_sets_codes();
    }
}

/// What `SISMEMBER` stands for.
pub proof fn law_sismember(a: Seq<Seq<u8>>, env: &ParseEnv)
    requires
        called(a, "SISMEMBER"@),
    ensures
        a.len() != 3 ==> refuses(a, env, "wrong number of arguments for 'sismember' command"@),
        a.len() == 3 ==> makes(a, env, CommandView::Sismember { key: a[1], member: a[2] }),
{
    reveal(verdict);
    lemma_called(a);
    assert(named_command_spec(upper_word(a[0]), unnamed(a), env) == sismember_spec(unnamed(a))) by {
        lemma_reach_sets(upper_word(a[0]), unnamed(a), env);
        lemma_sets_codes();
    }
}

/// What `SCARD` stands for.
pub proof fn law_scard(a: Seq<Seq<u8>>, env: &ParseEnv)
    requires
        called(a, "SCARD"@),
    ensures
        a.len() != 2 ==> refuses(a, env, "wrong number of arguments for 'scard' command"@),
        a.len() == 2 ==> makes(a, env, CommandView::Scard(a[1])),
{
    reveal(verdict);
    lemma_called(a);
    assert(named_command_spec(upper_word(a[0]), unnamed(a), env) == scard_spec(unnamed(a))) by {
        lemma_reach_sets(upper_word(a[0]), unnamed(a), env);
        lemma_sets_codes();
    }
}

/// What `SPOP` stands for.
pub proof fn law_spop(a: Seq<Seq<u8>>, env: &ParseEnv)
    requires
        called(a, "SPOP"@),
    ensures
        a.len() < 2 ==> refuses(a, env, "wrong number of arguments for 'spop' command"@),
        a.len() >= 3 && usize_of(a[2]) is None ==>
            refuses(a, env, "value is not an integer or out of range"@),
        a.len() >= 3 && usize_of(a[2]) is Some ==>
            makes(a, env, CommandView::Spop { key: a[1], count: Some(usize_of(a[2])->0) }),
        a.len() >= 2 && a.len() <= 2 ==>
            makes(a, env, CommandView::Spop { key: a[1], count: None }),
{
    reveal(verdict);
    lemma_called(a);
    assert(named_command_spec(upper_word(a[0]), unnamed(a), env) == spop_spec(unnamed(a))) by {
        lemma_reach_sets(upper_word(a[0]), unnamed(a), env);
        lemma_sets_codes();
    }
}

/// What `SINTER` stands for.
pub proof fn law_sinter(a: Seq<Seq<u8>>, env: &ParseEnv)
    requires
        called(a, "SINTER"@),
    ensures
        a.len() < 2 ==> refuses(a, env, "wrong number of arguments for 'sinter' command"@),
        a.len() >= 2 ==> makes(a, env, CommandView::Sinter(a.skip(1))),
{
    reveal(verdict);
    lemma_called(a);
    assert(named_command_spec(upper_word(a[0]), unnamed(a), env) == sinter_spec(unnamed(a))) by {
        lemma_reach_sets(upper_word(a[0]), unnamed(a), env);
        lemma_sets_codes();
    }
}

/// What `SINTERSTORE` stands for.
pub proof fn law_sinterstore(a: Seq<Seq<u8>>, env: &ParseEnv)
    requires
        called(a, "SINTERSTORE"@),
    ensures
        a.len() < 3 ==> refuses(a, env, "wrong number of arguments for 'sinterstore' command"@),
        a.len() >= 3 ==>
            makes(a, env, CommandView::Sinterstore { destination: a[1], keys: a.skip(2) }),
{
    reveal(verdict);
    lemma_called(a);
    assert(named_command_spec(
        upper_word(a[0]),
        unnamed(a),
        env,
    ) == sinterstore_spec(unnamed(a))) by {
        lemma_reach_sets(upper_word(a[0]), unnamed(a), env);
        lemma_sets_codes();
    }
}

/// What `SUNION` stands for.
pub proof fn law_sunion(a: Seq<Seq<u8>>, env: &ParseEnv)
    requires
        called(a, "SUNION"@),
    ensures
        a.len() < 2 ==> refuses(a, env, "wrong number of arguments for 'sunion' command"@),
        a.len() >= 2 ==> makes(a, env, CommandView::Sunion(a.skip(1))),
{
    reveal(verdict);
    lemma_called(a);
    assert(named_command_spec(upper_word(a[0]), unnamed(a), env) == sunion_spec(unnamed(a))) by {
        lemma_reach_sets(upper_word(a[0]), unnamed(a), env);
        lemma_sets_codes();
    }
}

/// What `SUNIONSTORE` stands for.
pub proof fn law_sunionstore(a: Seq<Seq<u8>>, env: &ParseEnv)
    requires
        called(a, "SUNIONSTORE"@),
    ensures
        a.len() < 3 ==> refuses(a, env, "wrong number of arguments for 'sunionstore' command"@),
        a.len() >= 3 ==>
            makes(a, env, CommandView::Sunionstore { destination: a[1], keys: a.skip(2) }),
{
    reveal(verdict);
    lemma_called(a);
    assert(named_command_spec(
        upper_word(a[0]),
        unnamed(a),
        env,
    ) == sunionstore_spec(unnamed(a))) by {
        lemma_reach_sets(upper_word(a[0]), unnamed(a), env);
        lemma_sets_codes();
    }
}

/// What `SDIFF` stands for.
pub proof fn law_sdiff(a: Seq<Seq<u8>>, env: &ParseEnv)
    requires
        called(a, "SDIFF"@),
    ensures
        a.len() < 2 ==> refuses(a, env, "wrong number of arguments for 'sdiff' command"@),
        a.len() >= 2 ==> makes(a, env, CommandView::Sdiff(a.skip(1))),
{
    reveal(verdict);
    lemma_called(a);
    assert(named_command_spec(upper_word(a[0]), unnamed(a), env) == sdiff_spec(unnamed(a))) by {
        lemma_reach_sets(upper_word(a[0]), unnamed(a), env);
        lemma_sets_codes();
    }
}

/// What `SDIFFSTORE` stands for.
pub proof fn law_sdiffstore(a: Seq<Seq<u8>>, env: &ParseEnv)
    requires
        called(a, "SDIFFSTORE"@),
    ensures
        a.len() < 3 ==> refuses(a, env, "wrong number of arguments for 'sdiffstore' command"@),
        a.len() >= 3 ==>
            makes(a, env, CommandView::Sdiffstore { destination: a[1], keys: a.skip(2) }),
{
    reveal(verdict);
    lemma_called(a);
    assert(named_command_spec(
        upper_word(a[0]),
        unnamed(a),
        env,
    ) == sdiffstore_spec(unnamed(a))) by {
        lemma_reach_sets(upper_word(a[0]), unnamed(a), env);
        lemma_sets_codes();
    }
}

/// What `SINTERCARD` stands for, up to its options.
pub proof fn law_sintercard(a: Seq<Seq<u8>>, env: &ParseEnv)
    requires
        called(a, "SINTERCARD"@),
    ensures
        a.len() < 3 ==> refuses(a, env, "wrong number of arguments for 'sintercard' command"@),
        a.len() >= 3 && i64_of(a[1]) is None ==> refuses(a, env, "numkeys must be greater than 0"@),
        a.len() >= 3 && i64_of(a[1]) is Some && i64_of(a[1])->0 <= 0 ==>
            refuses(a, env, "numkeys must be greater than 0"@),
        a.len() >= 3 && i64_of(a[1]) is Some && i64_of(a[1])->0 > 0
            && ((i64_of(a[1])->0 as usize) >= a.len() || a.len() - (i64_of(a[1])->0 as usize) < 2) ==>
            refuses(a, env, "Number of keys can't be greater than number of args"@),
{
    reveal(verdict);
    lemma_called(a);
    assert(named_command_spec(
        upper_word(a[0]),
        unnamed(a),
        env,
    ) == sintercard_spec(unnamed(a))) by {
        lemma_reach_sets(upper_word(a[0]), unnamed(a), env);
        lemma_sets_codes();
    }
}

/// What `SUNIONCARD` stands for, up to its options.
pub proof fn law_sunioncard(a: Seq<Seq<u8>>, env: &ParseEnv)
    requires
        called(a, "SUNIONCARD"@),
    ensures
        a.len() < 3 ==> refuses(a, env, "wrong number of arguments for 'sunioncard' command"@),
        a.len() >= 3 && i64_of(a[1]) is None ==> refuses(a, env, "numkeys must be greater than 0"@),
        a.len() >= 3 && i64_of(a[1]) is Some && i64_of(a[1])->0 <= 0 ==>
            refuses(a, env, "numkeys must be greater than 0"@),
        a.len() >= 3 && i64_of(a[1]) is Some && i64_of(a[1])->0 > 0
            && ((i64_of(a[1])->0 as usize) >= a.len() || a.len() - (i64_of(a[1])->0 as usize) < 2) ==>
            refuses(a, env, "Number of keys can't be greater than number of args"@),
{
    reveal(verdict);
    lemma_called(a);
    assert(named_command_spec(
        upper_word(a[0]),
        unnamed(a),
        env,
    ) == sunioncard_spec(unnamed(a))) by {
        lemma_reach_sets(upper_word(a[0]), unnamed(a), env);
        lemma_sets_codes();
    }
}

/// What `SDIFFCARD` stands for, up to its options.
pub proof fn law_sdiffcard(a: Seq<Seq<u8>>, env: &ParseEnv)
    requires
        called(a, "SDIFFCARD"@),
    ensures
        a.len() < 3 ==> refuses(a, env, "wrong number of arguments for 'sdiffcard' command"@),
        a.len() >= 3 && i64_of(a[1]) is None ==> refuses(a, env, "numkeys must be greater than 0"@),
        a.len() >= 3 && i64_of(a[1]) is Some && i64_of(a[1])->0 <= 0 ==>
            refuses(a, env, "numkeys must be greater than 0"@),
        a.len() >= 3 && i64_of(a[1]) is Some && i64_of(a[1])->0 > 0
            && ((i64_of(a[1])->0 as usize) >= a.len() || a.len() - (i64_of(a[1])->0 as usize) < 2) ==>
            refuses(a, env, "Number of keys can't be greater than number of args"@),
{
    reveal(verdict);
    lemma_called(a);
    assert(named_command_spec(upper_word(a[0]), unnamed(a), env) == sdiffcard_spec(unnamed(a))) by {
        lemma_reach_sets(upper_word(a[0]), unnamed(a), env);
        lemma_sets_codes();
    }
}

/// What `SMISMEMBER` stands for.
pub proof fn law_smismember(a: Seq<Seq<u8>>, env: &ParseEnv)
    requires
        called(a, "SMISMEMBER"@),
    ensures
        a.len() < 3 ==> refuses(a, env, "wrong number of arguments for 'smismember' command"@),
        a.len() >= 3 ==> makes(a, env, CommandView::Smismember { key: a[1], members: a.skip(2) }),
{
    reveal(verdict);
    lemma_called(a);
    assert(named_command_spec(
        upper_word(a[0]),
        unnamed(a),
        env,
    ) == smismember_spec(unnamed(a))) by {
        lemma_reach_sets(upper_word(a[0]), unnamed(a), env);
        lemma_sets_codes();
    }
}

/// What `SRANDMEMBER` stands for.
pub proof fn law_srandmember(a: Seq<Seq<u8>>, env: &ParseEnv)
    requires
        called(a, "SRANDMEMBER"@),
    ensures
        (a.len() < 2 || a.len() > 3) ==>
            refuses(a, env, "wrong number of arguments for 'srandmember' command"@),
        a.len() == 3 && i64_of(a[2]) is None ==>
            refuses(a, env, "value is not an integer or out of range"@),
        a.len() == 3 && i64_of(a[2]) is Some && i64_of(a[2])->0 == i64::MIN ==>
            refuses(a, env, "value is out of range"@),
        a.len() == 3 && i64_of(a[2]) is Some && i64_of(a[2])->0 != i64::MIN ==>
            makes(a, env, CommandView::Srandmember { key: a[1], count: Some(i64_of(a[2])->0) }),
        a.len() >= 2 && a.len() <= 3 && a.len() != 3 ==>
            makes(a, env, CommandView::Srandmember { key: a[1], count: None }),
{
    reveal(verdict);
    lemma_called(a);
    assert(named_command_spec(
        upper_word(a[0]),
        unnamed(a),
        env,
    ) == srandmember_spec(unnamed(a))) by {
        lemma_reach_sets(upper_word(a[0]), unnamed(a), env);
        lemma_sets_codes();
    }
}

/// What `SMOVE` stands for.
pub proof fn law_smove(a: Seq<Seq<u8>>, env: &ParseEnv)
    requires
        called(a, "SMOVE"@),
    ensures
        a.len() != 4 ==> refuses(a, env, "wrong number of arguments for 'smove' command"@),
        a.len() == 4 ==>
            makes(a, env, CommandView::Smove { source: a[1], destination: a[2], member: a[3] }),
{
    reveal(verdict);
    lemma_called(a);
    assert(named_command_spec(upper_word(a[0]), unnamed(a), env) == smove_spec(unnamed(a))) by {
        lemma_reach_sets(upper_word(a[0]), unnamed(a), env);
        lemma_sets_codes();
    }
}

/// What `SSCAN` stands for, up to its options.
pub proof fn law_sscan(a: Seq<Seq<u8>>, env: &ParseEnv)
    requires
        called(a, "SSCAN"@),
    ensures
        a.len() < 3 ==> refuses(a, env, "wrong number of arguments for 'sscan' command"@),
        a.len() >= 3 && usize_of(a[2]) is None ==>
            refuses(a, env, "value is not an integer or out of range"@),
{
    reveal(verdict);
    lemma_called(a);
    assert(named_command_spec(upper_word(a[0]), unnamed(a), env) == sscan_spec(unnamed(a))) by {
        lemma_reach_sets(upper_word(a[0]), unnamed(a), env);
        lemma_sets_codes();
    }
}

} // verus!
