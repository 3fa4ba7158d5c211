//! What the commands on lists stand for.
use vstd::prelude::*;

use crate::build::named_command_spec;
use crate::build::listcmds::{
    blmove_spec, blmpop_spec, blpop_spec, brpop_spec, brpoplpush_spec, lindex_spec, linsert_spec,
    llen_spec, lmove_spec, lmpop_spec, lpop_spec, lpos_spec, lpush_spec, lpushx_spec, lrange_spec,
    lrem_spec, lset_spec, ltrim_spec, pop_timeout_spec, rpop_spec, rpoplpush_spec, rpush_spec,
    rpushx_spec, side_of, sort_spec,
};
use crate::build::naming::{lemma_listcmds_codes, lemma_reach_listcmds, name_code};
use crate::command::CommandView;
use crate::numbers::{i64_of, usize_of};
use crate::operands::ListDirection;
use crate::readings::{ParseEnv, double_of, timeout_spec};
use crate::resp::unnamed;
use crate::text::{spells, upper_word};
use super::{called, lemma_called, makes, refuses, verdict};

verus! {

/// What `LPUSH` stands for.
pub proof fn law_lpush(a: Seq<Seq<u8>>, env: &ParseEnv)
    requires
        called(a, "LPUSH"@),
    ensures
        a.len() < 3 ==> refuses(a, env, "wrong number of arguments for 'lpush' command"@),
        a.len() >= 3 ==> makes(a, env, CommandView::Lpush { key: a[1], values: a.skip(2) }),
{
    reveal(verdict);
    lemma_called(a);
    assert(named_command_spec(upper_word(a[0]), unnamed(a), env) == lpush_spec(unnamed(a))) by {
        lemma_reach_listcmds(upper_word(a[0]), unnamed(a), env);
        lemma_listcmds_codes();
    }
}

/// What `RPUSH` stands for.
pub proof fn law_rpush(a: Seq<Seq<u8>>, env: &ParseEnv)
    requires
        called(a, "RPUSH"@),
    ensures
        a.len() < 3 ==> refuses(a, env, "wrong number of arguments for 'rpush' command"@),
        a.len() >= 3 ==> makes(a, env, CommandView::Rpush { key: a[1], values: a.skip(2) }),
{
    reveal(verdict);
    lemma_called(a);
    assert(named_command_spec(upper_word(a[0]), unnamed(a), env) == rpush_spec(unnamed(a))) by {
        lemma_reach_listcmds(upper_word(a[0]), unnamed(a), env);
        lemma_listcmds_codes();
    }
}

/// What `LPUSHX` stands for.
pub proof fn law_lpushx(a: Seq<Seq<u8>>, env: &ParseEnv)
    requires
        called(a, "LPUSHX"@),
    ensures
        a.len() < 3 ==> refuses(a, env, "wrong number of arguments for 'lpushx' command"@),
        a.len() >= 3 ==> makes(a, env, CommandView::Lpushx { key: a[1], values: a.skip(2) }),
{
    reveal(verdict);
    lemma_called(a);
    assert(named_command_spec(upper_word(a[0]), unnamed(a), env) == lpushx_spec(unnamed(a))) by {
        lemma_reach_listcmds(upper_word(a[0]), unnamed(a), env);
        lemma_listcmds_codes();
    }
}

/// What `RPUSHX` stands for.
pub proof fn law_rpushx(a: Seq<Seq<u8>>, env: &ParseEnv)
    requires
        called(a, "RPUSHX"@),
    ensures
        a.len() < 3 ==> refuses(a, env, "wrong number of arguments for 'rpushx' command"@),
        a.len() >= 3 ==> makes(a, env, CommandView::Rpushx { key: a[1], values: a.skip(2) }),
{
    reveal(verdict);
    lemma_called(a);
    assert(named_command_spec(upper_word(a[0]), unnamed(a), env) == rpushx_spec(unnamed(a))) by {
        lemma_reach_listcmds(upper_word(a[0]), unnamed(a), env);
        lemma_listcmds_codes();
    }
}

/// What `LPOP` stands for.
pub proof fn law_lpop(a: Seq<Seq<u8>>, env: &ParseEnv)
    requires
        called(a, "LPOP"@),
    ensures
        (a.len() < 2 || a.len() > 3) ==>
            refuses(a, env, "wrong number of arguments for 'lpop' command"@),
        a.len() >= 3 && a.len() <= 3 && usize_of(a[2]) is None ==>
            refuses(a, env, "value is not an integer or out of range"@),
        a.len() >= 3 && a.len() <= 3 && usize_of(a[2]) is Some ==>
            makes(a, env, CommandView::Lpop { key: a[1], count: Some(usize_of(a[2])->0) }),
        a.len() >= 2 && a.len() <= 3 && a.len() <= 2 ==>
            makes(a, env, CommandView::Lpop { key: a[1], count: None }),
{
    reveal(verdict);
    lemma_called(a);
    assert(named_command_spec(upper_word(a[0]), unnamed(a), env) == lpop_spec(unnamed(a))) by {
        lemma_reach_listcmds(upper_word(a[0]), unnamed(a), env);
        lemma_listcmds_codes();
    }
}

/// What `RPOP` stands for.
pub proof fn law_rpop(a: Seq<Seq<u8>>, env: &ParseEnv)
    requires
        called(a, "RPOP"@),
    ensures
        (a.len() < 2 || a.len() > 3) ==>
            refuses(a, env, "wrong number of arguments for 'rpop' command"@),
        a.len() >= 3 && a.len() <= 3 && usize_of(a[2]) is None ==>
            refuses(a, env, "value is not an integer or out of range"@),
        a.len() >= 3 && a.len() <= 3 && usize_of(a[2]) is Some ==>
            makes(a, env, CommandView::Rpop { key: a[1], count: Some(usize_of(a[2])->0) }),
        a.len() >= 2 && a.len() <= 3 && a.len() <= 2 ==>
            makes(a, env, CommandView::Rpop { key: a[1], count: None }),
{
    reveal(verdict);
    lemma_called(a);
    assert(named_command_spec(upper_word(a[0]), unnamed(a), env) == rpop_spec(unnamed(a))) by {
        lemma_reach_listcmds(upper_word(a[0]), unnamed(a), env);
        lemma_listcmds_codes();
    }
}

/// What `LRANGE` stands for.
pub proof fn law_lrange(a: Seq<Seq<u8>>, env: &ParseEnv)
    requires
        called(a, "LRANGE"@),
    ensures
        a.len() != 4 ==> refuses(a, env, "wrong number of arguments for 'lrange' command"@),
        a.len() == 4 && i64_of(a[2]) is None ==>
            refuses(a, env, "value is not an integer or out of range"@),
        a.len() == 4 && i64_of(a[2]) is Some && i64_of(a[3]) is None ==>
            refuses(a, env, "value is not an integer or out of range"@),
        a.len() == 4 && i64_of(a[2]) is Some && i64_of(a[3]) is Some ==>
            makes(
                a,
                env,
                CommandView::Lrange { key: a[1], start: i64_of(a[2])->0, stop: i64_of(a[3])->0 },
            ),
{
    reveal(verdict);
    lemma_called(a);
    assert(named_command_spec(upper_word(a[0]), unnamed(a), env) == lrange_spec(unnamed(a))) by {
        lemma_reach_listcmds(upper_word(a[0]), unnamed(a), env);
        lemma_listcmds_codes();
    }
}

/// What `LLEN` stands for.
pub proof fn law_llen(a: Seq<Seq<u8>>, env: &ParseEnv)
    requires
        called(a, "LLEN"@),
    ensures
        a.len() != 2 ==> refuses(a, env, "wrong number of arguments for 'llen' command"@),
        a.len() == 2 ==> makes(a, env, CommandView::Llen(a[1])),
{
    reveal(verdict);
    lemma_called(a);
    assert(named_command_spec(upper_word(a[0]), unnamed(a), env) == llen_spec(unnamed(a))) by {
        lemma_reach_listcmds(upper_word(a[0]), unnamed(a), env);
        lemma_listcmds_codes();
    }
}

/// What `LINDEX` stands for.
pub proof fn law_lindex(a: Seq<Seq<u8>>, env: &ParseEnv)
    requires
        called(a, "LINDEX"@),
    ensures
        a.len() != 3 ==> refuses(a, env, "wrong number of arguments for 'lindex' command"@),
        a.len() == 3 && i64_of(a[2]) is None ==>
            refuses(a, env, "value is not an integer or out of range"@),
        a.len() == 3 && i64_of(a[2]) is Some ==>
            makes(a, env, CommandView::Lindex { key: a[1], index: i64_of(a[2])->0 }),
{
    reveal(verdict);
    lemma_called(a);
    assert(named_command_spec(upper_word(a[0]), unnamed(a), env) == lindex_spec(unnamed(a))) by {
        lemma_reach_listcmds(upper_word(a[0]), unnamed(a), env);
        lemma_listcmds_codes();
    }
}

/// What `BLPOP` stands for.
pub proof fn law_blpop(a: Seq<Seq<u8>>, env: &ParseEnv)
    requires
        called(a, "BLPOP"@),
    ensures
        a.len() < 3 ==> refuses(a, env, "wrong number of arguments for 'blpop' command"@),
        a.len() >= 3 && pop_timeout_spec(env, a[a.len() - 1]) is Err ==>
            refuses(a, env, (pop_timeout_spec(env, a[a.len() - 1])->Err_0)),
        a.len() >= 3 && pop_timeout_spec(env, a[a.len() - 1]) is Ok ==>
            makes(
                a,
                env,
                CommandView::Blpop {
                    keys: a.subrange(1, a.len() - 1),
                    timeout: pop_timeout_spec(env, a[a.len() - 1])->Ok_0,
                },
            ),
{
    reveal(verdict);
    lemma_called(a);
    assert(named_command_spec(
        upper_word(a[0]),
        unnamed(a),
        env,
    ) == blpop_spec(unnamed(a), env)) by {
        lemma_reach_listcmds(upper_word(a[0]), unnamed(a), env);
        lemma_listcmds_codes();
    }
}

/// What `BRPOP` stands for.
pub proof fn law_brpop(a: Seq<Seq<u8>>, env: &ParseEnv)
    requires
        called(a, "BRPOP"@),
    ensures
        a.len() < 3 ==> refuses(a, env, "wrong number of arguments for 'brpop' command"@),
        a.len() >= 3 && pop_timeout_spec(env, a[a.len() - 1]) is Err ==>
            refuses(a, env, (pop_timeout_spec(env, a[a.len() - 1])->Err_0)),
        a.len() >= 3 && pop_timeout_spec(env, a[a.len() - 1]) is Ok ==>
            makes(
                a,
                env,
                CommandView::Brpop {
                    keys: a.subrange(1, a.len() - 1),
                    timeout: pop_timeout_spec(env, a[a.len() - 1])->Ok_0,
                },
            ),
{
    reveal(verdict);
    lemma_called(a);
    assert(named_command_spec(
        upper_word(a[0]),
        unnamed(a),
        env,
    ) == brpop_spec(unnamed(a), env)) by {
        lemma_reach_listcmds(upper_word(a[0]), unnamed(a), env);
        lemma_listcmds_codes();
    }
}

/// What `LMPOP` stands for.
pub proof fn law_lmpop(a: Seq<Seq<u8>>, env: &ParseEnv)
    requires
        called(a, "LMPOP"@),
    ensures
        a.len() < 4 ==> refuses(a, env, "wrong number of arguments for 'lmpop' command"@),
        a.len() >= 4 && i64_of(a[1]) is None ==>
            refuses(a, env, "numkeys should be greater than 0"@),
        a.len() >= 4 && i64_of(a[1]) is Some && i64_of(a[1])->0 <= 0 ==>
            refuses(a, env, "numkeys should be greater than 0"@),
        a.len() >= 4 && i64_of(a[1]) is Some && i64_of(a[1])->0 > 0
            && ((i64_of(a[1])->0 as usize) >= a.len() || a.len() - (i64_of(a[1])->0 as usize) <= 2) ==>
            refuses(a, env, "syntax error"@),
        a.len() >= 4 && i64_of(a[1]) is Some && i64_of(a[1])->0 > 0
            && (i64_of(a[1])->0 as usize) < a.len() && a.len() - (i64_of(a[1])->0 as usize) > 2
            && (upper_word(a[((i64_of(a[1])->0 as usize) + 2)])) != "LEFT"@
            && (upper_word(a[((i64_of(a[1])->0 as usize) + 2)])) != "RIGHT"@ ==>
            refuses(a, env, "syntax error"@),
        a.len() >= 4 && i64_of(a[1]) is Some && i64_of(a[1])->0 > 0
            && (i64_of(a[1])->0 as usize) < a.len() && a.len() - (i64_of(a[1])->0 as usize) > 2
            && (((upper_word(a[((i64_of(a[1])->0 as usize) + 2)])) == "LEFT"@ || (upper_word(a[((i64_of(a[1])->0 as usize) + 2)])) == "RIGHT"@))
            && a.len() - ((i64_of(a[1])->0 as usize) + 2) > 1
            && a.len() - ((i64_of(a[1])->0 as usize) + 2) != 3 ==>
            refuses(a, env, "syntax error"@),
        a.len() >= 4 && i64_of(a[1]) is Some && i64_of(a[1])->0 > 0
            && (i64_of(a[1])->0 as usize) < a.len() && a.len() - (i64_of(a[1])->0 as usize) > 2
            && (((upper_word(a[((i64_of(a[1])->0 as usize) + 2)])) == "LEFT"@ || (upper_word(a[((i64_of(a[1])->0 as usize) + 2)])) == "RIGHT"@))
            && a.len() - ((i64_of(a[1])->0 as usize) + 2) > 1
            && a.len() - ((i64_of(a[1])->0 as usize) + 2) == 3
            && !spells(a[((i64_of(a[1])->0 as usize) + 2) + 1], "COUNT"@) ==>
            refuses(a, env, "syntax error"@),
        a.len() >= 4 && i64_of(a[1]) is Some && i64_of(a[1])->0 > 0
            && (i64_of(a[1])->0 as usize) < a.len() && a.len() - (i64_of(a[1])->0 as usize) > 2
            && (((upper_word(a[((i64_of(a[1])->0 as usize) + 2)])) == "LEFT"@ || (upper_word(a[((i64_of(a[1])->0 as usize) + 2)])) == "RIGHT"@))
            && a.len() - ((i64_of(a[1])->0 as usize) + 2) > 1
            && a.len() - ((i64_of(a[1])->0 as usize) + 2) == 3
            && spells(a[((i64_of(a[1])->0 as usize) + 2) + 1], "COUNT"@)
            && i64_of(a[((i64_of(a[1])->0 as usize) + 2) + 2]) is None ==>
            refuses(a, env, "count should be greater than 0"@),
        a.len() >= 4 && i64_of(a[1]) is Some && i64_of(a[1])->0 > 0
            && (i64_of(a[1])->0 as usize) < a.len() && a.len() - (i64_of(a[1])->0 as usize) > 2
            && (((upper_word(a[((i64_of(a[1])->0 as usize) + 2)])) == "LEFT"@ || (upper_word(a[((i64_of(a[1])->0 as usize) + 2)])) == "RIGHT"@))
            && a.len() - ((i64_of(a[1])->0 as usize) + 2) > 1
            && a.len() - ((i64_of(a[1])->0 as usize) + 2) == 3
            && spells(a[((i64_of(a[1])->0 as usize) + 2) + 1], "COUNT"@)
            && i64_of(a[((i64_of(a[1])->0 as usize) + 2) + 2]) is Some
            && (i64_of(a[((i64_of(a[1])->0 as usize) + 2) + 2])->0) <= 0 ==>
            refuses(a, env, "count should be greater than 0"@),
        a.len() >= 4 && i64_of(a[1]) is Some && i64_of(a[1])->0 > 0
            && (i64_of(a[1])->0 as usize) < a.len() && a.len() - (i64_of(a[1])->0 as usize) > 2
            && (((upper_word(a[((i64_of(a[1])->0 as usize) + 2)])) == "LEFT"@ || (upper_word(a[((i64_of(a[1])->0 as usize) + 2)])) == "RIGHT"@))
            && a.len() - ((i64_of(a[1])->0 as usize) + 2) > 1
            && a.len() - ((i64_of(a[1])->0 as usize) + 2) == 3
            && spells(a[((i64_of(a[1])->0 as usize) + 2) + 1], "COUNT"@)
            && i64_of(a[((i64_of(a[1])->0 as usize) + 2) + 2]) is Some
            && (i64_of(a[((i64_of(a[1])->0 as usize) + 2) + 2])->0) > 0
            && (upper_word(a[((i64_of(a[1])->0 as usize) + 2)])) == "LEFT"@ ==>
            makes(
                a,
                env,
                CommandView::Lmpop {
                    keys: a.subrange(2, ((i64_of(a[1])->0 as usize) + 2)),
                    where_from: ListDirection::Left,
                    count: (i64_of(a[((i64_of(a[1])->0 as usize) + 2) + 2])->0) as usize,
                },
            ),
        a.len() >= 4 && i64_of(a[1]) is Some && i64_of(a[1])->0 > 0
            && (i64_of(a[1])->0 as usize) < a.len() && a.len() - (i64_of(a[1])->0 as usize) > 2
            && (((upper_word(a[((i64_of(a[1])->0 as usize) + 2)])) == "LEFT"@ || (upper_word(a[((i64_of(a[1])->0 as usize) + 2)])) == "RIGHT"@))
            && a.len() - ((i64_of(a[1])->0 as usize) + 2) > 1
            && a.len() - ((i64_of(a[1])->0 as usize) + 2) == 3
            && spells(a[((i64_of(a[1])->0 as usize) + 2) + 1], "COUNT"@)
            && i64_of(a[((i64_of(a[1])->0 as usize) + 2) + 2]) is Some
            && (i64_of(a[((i64_of(a[1])->0 as usize) + 2) + 2])->0) > 0
            && (upper_word(a[((i64_of(a[1])->0 as usize) + 2)])) != "LEFT"@ ==>
            makes(
                a,
                env,
                CommandView::Lmpop {
                    keys: a.subrange(2, ((i64_of(a[1])->0 as usize) + 2)),
                    where_from: ListDirection::Right,
                    count: (i64_of(a[((i64_of(a[1])->0 as usize) + 2) + 2])->0) as usize,
                },
            ),
        a.len() >= 4 && i64_of(a[1]) is Some && i64_of(a[1])->0 > 0
            && (i64_of(a[1])->0 as usize) < a.len() && a.len() - (i64_of(a[1])->0 as usize) > 2
            && (((upper_word(a[((i64_of(a[1])->0 as usize) + 2)])) == "LEFT"@ || (upper_word(a[((i64_of(a[1])->0 as usize) + 2)])) == "RIGHT"@))
            && a.len() - ((i64_of(a[1])->0 as usize) + 2) <= 1
            && (upper_word(a[((i64_of(a[1])->0 as usize) + 2)])) == "LEFT"@ ==>
            makes(
                a,
                env,
                CommandView::Lmpop {
                    keys: a.subrange(2, ((i64_of(a[1])->0 as usize) + 2)),
                    where_from: ListDirection::Left,
                    count: 1,
                },
            ),
        a.len() >= 4 && i64_of(a[1]) is Some && i64_of(a[1])->0 > 0
            && (i64_of(a[1])->0 as usize) < a.len() && a.len() - (i64_of(a[1])->0 as usize) > 2
            && (((upper_word(a[((i64_of(a[1])->0 as usize) + 2)])) == "LEFT"@ || (upper_word(a[((i64_of(a[1])->0 as usize) + 2)])) == "RIGHT"@))
            && a.len() - ((i64_of(a[1])->0 as usize) + 2) <= 1
            && (upper_word(a[((i64_of(a[1])->0 as usize) + 2)])) != "LEFT"@ ==>
            makes(
                a,
                env,
                CommandView::Lmpop {
                    keys: a.subrange(2, ((i64_of(a[1])->0 as usize) + 2)),
                    where_from: ListDirection::Right,
                    count: 1,
                },
            ),
{
    reveal(verdict);
    lemma_called(a);
    assert(named_command_spec(upper_word(a[0]), unnamed(a), env) == lmpop_spec(unnamed(a))) by {
        lemma_reach_listcmds(upper_word(a[0]), unnamed(a), env);
        lemma_listcmds_codes();
    }
    reveal(name_code);
    reveal_strlit("LEFT");
    reveal_strlit("RIGHT");
    assert(name_code("LEFT"@) == 8386064575853304);
    assert(name_code("RIGHT"@) == 9047469406829505);
}

/// What `BLMPOP` stands for.
pub proof fn law_blmpop(a: Seq<Seq<u8>>, env: &ParseEnv)
    requires
        called(a, "BLMPOP"@),
    ensures
        a.len() < 5 ==> refuses(a, env, "wrong number of arguments for 'blmpop' command"@),
        a.len() >= 5 && timeout_spec(double_of(env, a[1])) is Err ==>
            refuses(a, env, (timeout_spec(double_of(env, a[1]))->Err_0)),
        a.len() >= 5 && timeout_spec(double_of(env, a[1])) is Ok && i64_of(a[2]) is None ==>
            refuses(a, env, "numkeys should be greater than 0"@),
        a.len() >= 5 && timeout_spec(double_of(env, a[1])) is Ok && i64_of(a[2]) is Some
            && i64_of(a[2])->0 <= 0 ==>
            refuses(a, env, "numkeys should be greater than 0"@),
        a.len() >= 5 && timeout_spec(double_of(env, a[1])) is Ok && i64_of(a[2]) is Some
            && i64_of(a[2])->0 > 0
            && ((i64_of(a[2])->0 as usize) >= a.len() || a.len() - (i64_of(a[2])->0 as usize) <= 3) ==>
            refuses(a, env, "syntax error"@),
        a.len() >= 5 && timeout_spec(double_of(env, a[1])) is Ok && i64_of(a[2]) is Some
            && i64_of(a[2])->0 > 0 && (i64_of(a[2])->0 as usize) < a.len()
            && a.len() - (i64_of(a[2])->0 as usize) > 3
            && (upper_word(a[((i64_of(a[2])->0 as usize) + 3)])) != "LEFT"@
            && (upper_word(a[((i64_of(a[2])->0 as usize) + 3)])) != "RIGHT"@ ==>
            refuses(a, env, "syntax error"@),
        a.len() >= 5 && timeout_spec(double_of(env, a[1])) is Ok && i64_of(a[2]) is Some
            && i64_of(a[2])->0 > 0 && (i64_of(a[2])->0 as usize) < a.len()
            && a.len() - (i64_of(a[2])->0 as usize) > 3
            && (((upper_word(a[((i64_of(a[2])->0 as usize) + 3)])) == "LEFT"@ || (upper_word(a[((i64_of(a[2])->0 as usize) + 3)])) == "RIGHT"@))
            && a.len() - ((i64_of(a[2])->0 as usize) + 3) > 1
            && a.len() - ((i64_of(a[2])->0 as usize) + 3) != 3 ==>
            refuses(a, env, "syntax error"@),
        a.len() >= 5 && timeout_spec(double_of(env, a[1])) is Ok && i64_of(a[2]) is Some
            && i64_of(a[2])->0 > 0 && (i64_of(a[2])->0 as usize) < a.len()
            && a.len() - (i64_of(a[2])->0 as usize) > 3
            && (((upper_word(a[((i64_of(a[2])->0 as usize) + 3)])) == "LEFT"@ || (upper_word(a[((i64_of(a[2])->0 as usize) + 3)])) == "RIGHT"@))
            && a.len() - ((i64_of(a[2])->0 as usize) + 3) > 1
            && a.len() - ((i64_of(a[2])->0 as usize) + 3) == 3
            && !spells(a[((i64_of(a[2])->0 as usize) + 3) + 1], "COUNT"@) ==>
            refuses(a, env, "syntax error"@),
        a.len() >= 5 && timeout_spec(double_of(env, a[1])) is Ok && i64_of(a[2]) is Some
            && i64_of(a[2])->0 > 0 && (i64_of(a[2])->0 as usize) < a.len()
            && a.len() - (i64_of(a[2])->0 as usize) > 3
            && (((upper_word(a[((i64_of(a[2])->0 as usize) + 3)])) == "LEFT"@ || (upper_word(a[((i64_of(a[2])->0 as usize) + 3)])) == "RIGHT"@))
            && a.len() - ((i64_of(a[2])->0 as usize) + 3) > 1
            && a.len() - ((i64_of(a[2])->0 as usize) + 3) == 3
            && spells(a[((i64_of(a[2])->0 as usize) + 3) + 1], "COUNT"@)
            && i64_of(a[((i64_of(a[2])->0 as usize) + 3) + 2]) is None ==>
            refuses(a, env, "count should be greater than 0"@),
        a.len() >= 5 && timeout_spec(double_of(env, a[1])) is Ok && i64_of(a[2]) is Some
            && i64_of(a[2])->0 > 0 && (i64_of(a[2])->0 as usize) < a.len()
            && a.len() - (i64_of(a[2])->0 as usize) > 3
            && (((upper_word(a[((i64_of(a[2])->0 as usize) + 3)])) == "LEFT"@ || (upper_word(a[((i64_of(a[2])->0 as usize) + 3)])) == "RIGHT"@))
            && a.len() - ((i64_of(a[2])->0 as usize) + 3) > 1
            && a.len() - ((i64_of(a[2])->0 as usize) + 3) == 3
            && spells(a[((i64_of(a[2])->0 as usize) + 3) + 1], "COUNT"@)
            && i64_of(a[((i64_of(a[2])->0 as usize) + 3) + 2]) is Some
            && (i64_of(a[((i64_of(a[2])->0 as usize) + 3) + 2])->0) <= 0 ==>
            refuses(a, env, "count should be greater than 0"@),
        a.len() >= 5 && timeout_spec(double_of(env, a[1])) is Ok && i64_of(a[2]) is Some
            && i64_of(a[2])->0 > 0 && (i64_of(a[2])->0 as usize) < a.len()
            && a.len() - (i64_of(a[2])->0 as usize) > 3
            && (((upper_word(a[((i64_of(a[2])->0 as usize) + 3)])) == "LEFT"@ || (upper_word(a[((i64_of(a[2])->0 as usize) + 3)])) == "RIGHT"@))
            && a.len() - ((i64_of(a[2])->0 as usize) + 3) > 1
            && a.len() - ((i64_of(a[2])->0 as usize) + 3) == 3
            && spells(a[((i64_of(a[2])->0 as usize) + 3) + 1], "COUNT"@)
            && i64_of(a[((i64_of(a[2])->0 as usize) + 3) + 2]) is Some
            && (i64_of(a[((i64_of(a[2])->0 as usize) + 3) + 2])->0) > 0
            && (upper_word(a[((i64_of(a[2])->0 as usize) + 3)])) == "LEFT"@ ==>
            makes(
                a,
                env,
                CommandView::Blmpop {
                    timeout: timeout_spec(double_of(env, a[1]))->Ok_0,
                    keys: a.subrange(3, ((i64_of(a[2])->0 as usize) + 3)),
                    where_from: ListDirection::Left,
                    count: (i64_of(a[((i64_of(a[2])->0 as usize) + 3) + 2])->0) as usize,
                },
            ),
        a.len() >= 5 && timeout_spec(double_of(env, a[1])) is Ok && i64_of(a[2]) is Some
            && i64_of(a[2])->0 > 0 && (i64_of(a[2])->0 as usize) < a.len()
            && a.len() - (i64_of(a[2])->0 as usize) > 3
            && (((upper_word(a[((i64_of(a[2])->0 as usize) + 3)])) == "LEFT"@ || (upper_word(a[((i64_of(a[2])->0 as usize) + 3)])) == "RIGHT"@))
            && a.len() - ((i64_of(a[2])->0 as usize) + 3) > 1
            && a.len() - ((i64_of(a[2])->0 as usize) + 3) == 3
            && spells(a[((i64_of(a[2])->0 as usize) + 3) + 1], "COUNT"@)
            && i64_of(a[((i64_of(a[2])->0 as usize) + 3) + 2]) is Some
            && (i64_of(a[((i64_of(a[2])->0 as usize) + 3) + 2])->0) > 0
            && (upper_word(a[((i64_of(a[2])->0 as usize) + 3)])) != "LEFT"@ ==>
            makes(
                a,
                env,
                CommandView::Blmpop {
                    timeout: timeout_spec(double_of(env, a[1]))->Ok_0,
                    keys: a.subrange(3, ((i64_of(a[2])->0 as usize) + 3)),
                    where_from: ListDirection::Right,
                    count: (i64_of(a[((i64_of(a[2])->0 as usize) + 3) + 2])->0) as usize,
                },
            ),
        a.len() >= 5 && timeout_spec(double_of(env, a[1])) is Ok && i64_of(a[2]) is Some
            && i64_of(a[2])->0 > 0 && (i64_of(a[2])->0 as usize) < a.len()
            && a.len() - (i64_of(a[2])->0 as usize) > 3
            && (((upper_word(a[((i64_of(a[2])->0 as usize) + 3)])) == "LEFT"@ || (upper_word(a[((i64_of(a[2])->0 as usize) + 3)])) == "RIGHT"@))
            && a.len() - ((i64_of(a[2])->0 as usize) + 3) <= 1
            && (upper_word(a[((i64_of(a[2])->0 as usize) + 3)])) == "LEFT"@ ==>
            makes(
                a,
                env,
                CommandView::Blmpop {
                    timeout: timeout_spec(double_of(env, a[1]))->Ok_0,
                    keys: a.subrange(3, ((i64_of(a[2])->0 as usize) + 3)),
                    where_from: ListDirection::Left,
                    count: 1,
                },
            ),
        a.len() >= 5 && timeout_spec(double_of(env, a[1])) is Ok && i64_of(a[2]) is Some
            && i64_of(a[2])->0 > 0 && (i64_of(a[2])->0 as usize) < a.len()
            && a.len() - (i64_of(a[2])->0 as usize) > 3
            && (((upper_word(a[((i64_of(a[2])->0 as usize) + 3)])) == "LEFT"@ || (upper_word(a[((i64_of(a[2])->0 as usize) + 3)])) == "RIGHT"@))
            && a.len() - ((i64_of(a[2])->0 as usize) + 3) <= 1
            && (upper_word(a[((i64_of(a[2])->0 as usize) + 3)])) != "LEFT"@ ==>
            makes(
                a,
                env,
                CommandView::Blmpop {
                    timeout: timeout_spec(double_of(env, a[1]))->Ok_0,
                    keys: a.subrange(3, ((i64_of(a[2])->0 as usize) + 3)),
                    where_from: ListDirection::Right,
                    count: 1,
                },
            ),
{
    reveal(verdict);
    lemma_called(a);
    assert(named_command_spec(
        upper_word(a[0]),
        unnamed(a),
        env,
    ) == blmpop_spec(unnamed(a), env)) by {
        lemma_reach_listcmds(upper_word(a[0]), unnamed(a), env);
        lemma_listcmds_codes();
    }
    reveal(name_code);
    reveal_strlit("LEFT");
    reveal_strlit("RIGHT");
    assert(name_code("LEFT"@) == 8386064575853304);
    assert(name_code("RIGHT"@) == 9047469406829505);
}

/// What `LTRIM` stands for.
pub proof fn law_ltrim(a: Seq<Seq<u8>>, env: &ParseEnv)
    requires
        called(a, "LTRIM"@),
    ensures
        a.len() != 4 ==> refuses(a, env, "wrong number of arguments for 'ltrim' command"@),
        a.len() == 4 && i64_of(a[2]) is None ==>
            refuses(a, env, "value is not an integer or out of range"@),
        a.len() == 4 && i64_of(a[2]) is Some && i64_of(a[3]) is None ==>
            refuses(a, env, "value is not an integer or out of range"@),
        a.len() == 4 && i64_of(a[2]) is Some && i64_of(a[3]) is Some ==>
            makes(
                a,
                env,
                CommandView::Ltrim { key: a[1], start: i64_of(a[2])->0, stop: i64_of(a[3])->0 },
            ),
{
    reveal(verdict);
    lemma_called(a);
    assert(named_command_spec(upper_word(a[0]), unnamed(a), env) == ltrim_spec(unnamed(a))) by {
        lemma_reach_listcmds(upper_word(a[0]), unnamed(a), env);
        lemma_listcmds_codes();
    }
}

/// What `LSET` stands for.
pub proof fn law_lset(a: Seq<Seq<u8>>, env: &ParseEnv)
    requires
        called(a, "LSET"@),
    ensures
        a.len() != 4 ==> refuses(a, env, "wrong number of arguments for 'lset' command"@),
        a.len() == 4 && i64_of(a[2]) is None ==>
            refuses(a, env, "value is not an integer or out of range"@),
        a.len() == 4 && i64_of(a[2]) is Some ==>
            makes(a, env, CommandView::Lset { key: a[1], index: i64_of(a[2])->0, element: a[3] }),
{
    reveal(verdict);
    lemma_called(a);
    assert(named_command_spec(upper_word(a[0]), unnamed(a), env) == lset_spec(unnamed(a))) by {
        lemma_reach_listcmds(upper_word(a[0]), unnamed(a), env);
        lemma_listcmds_codes();
    }
}

/// What `LREM` stands for.
pub proof fn law_lrem(a: Seq<Seq<u8>>, env: &ParseEnv)
    requires
        called(a, "LREM"@),
    ensures
        a.len() != 4 ==> refuses(a, env, "wrong number of arguments for 'lrem' command"@),
        a.len() == 4 && i64_of(a[2]) is None ==>
            refuses(a, env, "value is not an integer or out of range"@),
        a.len() == 4 && i64_of(a[2]) is Some ==>
            makes(a, env, CommandView::Lrem { key: a[1], count: i64_of(a[2])->0, element: a[3] }),
{
    reveal(verdict);
    lemma_called(a);
    assert(named_command_spec(upper_word(a[0]), unnamed(a), env) == lrem_spec(unnamed(a))) by {
        lemma_reach_listcmds(upper_word(a[0]), unnamed(a), env);
        lemma_listcmds_codes();
    }
}

/// What `LPOS` stands for, up to its options.
pub proof fn law_lpos(a: Seq<Seq<u8>>, env: &ParseEnv)
    requires
        called(a, "LPOS"@),
    ensures
        a.len() < 3 ==> refuses(a, env, "wrong number of arguments for 'lpos' command"@),
{
    reveal(verdict);
    lemma_called(a);
    assert(named_command_spec(upper_word(a[0]), unnamed(a), env) == lpos_spec(unnamed(a))) by {
        lemma_reach_listcmds(upper_word(a[0]), unnamed(a), env);
        lemma_listcmds_codes();
    }
}

/// What `LINSERT` stands for.
pub proof fn law_linsert(a: Seq<Seq<u8>>, env: &ParseEnv)
    requires
        called(a, "LINSERT"@),
    ensures
        a.len() != 5 ==> refuses(a, env, "wrong number of arguments for 'linsert' command"@),
        a.len() == 5 && upper_word(a[2]) != "BEFORE"@ && upper_word(a[2]) != "AFTER"@ ==>
            refuses(a, env, "syntax error"@),
        a.len() == 5 && ((upper_word(a[2]) == "BEFORE"@ || upper_word(a[2]) == "AFTER"@)) ==>
            makes(
                a,
                env,
                CommandView::Linsert {
                    key: a[1],
                    before: upper_word(a[2]) == "BEFORE"@,
                    pivot: a[3],
                    element: a[4],
                },
            ),
{
    reveal(verdict);
    lemma_called(a);
    assert(named_command_spec(upper_word(a[0]), unnamed(a), env) == linsert_spec(unnamed(a))) by {
        lemma_reach_listcmds(upper_word(a[0]), unnamed(a), env);
        lemma_listcmds_codes();
    }
    reveal(name_code);
    reveal_strlit("AFTER");
    reveal_strlit("BEFORE");
    assert(name_code("AFTER"@) == 7177006116181205);
    assert(name_code("BEFORE"@) == 7286545011975906);
}

/// What `LMOVE` stands for.
pub proof fn law_lmove(a: Seq<Seq<u8>>, env: &ParseEnv)
    requires
        called(a, "LMOVE"@),
    ensures
        a.len() != 5 ==> refuses(a, env, "wrong number of arguments for 'lmove' command"@),
        a.len() == 5 && side_of(upper_word(a[3])) is None ==> refuses(a, env, "syntax error"@),
        a.len() == 5 && side_of(upper_word(a[3])) is Some && side_of(upper_word(a[4])) is None ==>
            refuses(a, env, "syntax error"@),
        a.len() == 5 && side_of(upper_word(a[3])) is Some && side_of(upper_word(a[4])) is Some ==>
            makes(
                a,
                env,
                CommandView::Lmove {
                    source: a[1],
                    destination: a[2],
                    where_from: side_of(upper_word(a[3]))->0,
                    where_to: side_of(upper_word(a[4]))->0,
                },
            ),
{
    reveal(verdict);
    lemma_called(a);
    assert(named_command_spec(upper_word(a[0]), unnamed(a), env) == lmove_spec(unnamed(a))) by {
        lemma_reach_listcmds(upper_word(a[0]), unnamed(a), env);
        lemma_listcmds_codes();
    }
}

/// What `BLMOVE` stands for.
pub proof fn law_blmove(a: Seq<Seq<u8>>, env: &ParseEnv)
    requires
        called(a, "BLMOVE"@),
    ensures
        a.len() != 6 ==> refuses(a, env, "wrong number of arguments for 'blmove' command"@),
        a.len() == 6 && side_of(upper_word(a[3])) is None ==> refuses(a, env, "syntax error"@),
        a.len() == 6 && side_of(upper_word(a[3])) is Some && side_of(upper_word(a[4])) is None ==>
            refuses(a, env, "syntax error"@),
        a.len() == 6 && side_of(upper_word(a[3])) is Some && side_of(upper_word(a[4])) is Some
            && timeout_spec(double_of(env, a[5])) is Err ==>
            refuses(a, env, (timeout_spec(double_of(env, a[5]))->Err_0)),
        a.len() == 6 && side_of(upper_word(a[3])) is Some && side_of(upper_word(a[4])) is Some
            && timeout_spec(double_of(env, a[5])) is Ok ==>
            makes(
                a,
                env,
                CommandView::Blmove {
                    source: a[1],
                    destination: a[2],
                    where_from: side_of(upper_word(a[3]))->0,
                    where_to: side_of(upper_word(a[4]))->0,
                    timeout: timeout_spec(double_of(env, a[5]))->Ok_0,
                },
            ),
{
    reveal(verdict);
    lemma_called(a);
    assert(named_command_spec(
        upper_word(a[0]),
        unnamed(a),
        env,
    ) == blmove_spec(unnamed(a), env)) by {
        lemma_reach_listcmds(upper_word(a[0]), unnamed(a), env);
        lemma_listcmds_codes();
    }
}

/// What `RPOPLPUSH` stands for.
pub proof fn law_rpoplpush(a: Seq<Seq<u8>>, env: &ParseEnv)
    requires
        called(a, "RPOPLPUSH"@),
    ensures
        a.len() != 3 ==> refuses(a, env, "wrong number of arguments for 'rpoplpush' command"@),
        a.len() == 3 ==>
            makes(
                a,
                env,
                CommandView::Lmove {
                    source: a[1],
                    destination: a[2],
                    where_from: ListDirection::Right,
                    where_to: ListDirection::Left,
                },
            ),
{
    reveal(verdict);
    lemma_called(a);
    assert(named_command_spec(upper_word(a[0]), unnamed(a), env) == rpoplpush_spec(unnamed(a))) by {
        lemma_reach_listcmds(upper_word(a[0]), unnamed(a), env);
        lemma_listcmds_codes();
    }
}

/// What `BRPOPLPUSH` stands for.
pub proof fn law_brpoplpush(a: Seq<Seq<u8>>, env: &ParseEnv)
    requires
        called(a, "BRPOPLPUSH"@),
    ensures
        a.len() != 4 ==> refuses(a, env, "wrong number of arguments for 'brpoplpush' command"@),
        a.len() == 4 && timeout_spec(double_of(env, a[3])) is Err ==>
            refuses(a, env, (timeout_spec(double_of(env, a[3]))->Err_0)),
        a.len() == 4 && timeout_spec(double_of(env, a[3])) is Ok ==>
            makes(
                a,
                env,
                CommandView::Blmove {
                    source: a[1],
                    destination: a[2],
                    where_from: ListDirection::Right,
                    where_to: ListDirection::Left,
                    timeout: timeout_spec(double_of(env, a[3]))->Ok_0,
                },
            ),
{
    reveal(verdict);
    lemma_called(a);
    assert(named_command_spec(
        upper_word(a[0]),
        unnamed(a),
        env,
    ) == brpoplpush_spec(unnamed(a), env)) by {
        lemma_reach_listcmds(upper_word(a[0]), unnamed(a), env);
        lemma_listcmds_codes();
    }
}

/// What `SORT` or `SORT_RO` stands for, up to its options.
pub proof fn law_sort(a: Seq<Seq<u8>>, env: &ParseEnv)
    requires
        called(a, "SORT"@) || called(a, "SORT_RO"@),
    ensures
        a.len() < 2 ==> refuses(a, env, "wrong number of arguments for 'sort' command"@),
{
    reveal(verdict);
    lemma_called(a);
    assert(named_command_spec(upper_word(a[0]), unnamed(a), env) == sort_spec(unnamed(a))) by {
        lemma_reach_listcmds(upper_word(a[0]), unnamed(a), env);
        lemma_listcmds_codes();
    }
}

} // verus!
