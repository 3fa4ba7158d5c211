//! What the commands on sorted sets stand for.
use vstd::prelude::*;

use crate::build::named_command_spec;
use crate::build::naming::{lemma_reach_zsets, lemma_zsets_codes, name_code};
use crate::build::zsets::{
    bzmpop_spec, bzpopmax_spec, bzpopmin_spec, zadd_spec, zcard_spec, zcount_spec, zdiff_spec,
    zdiffstore_spec, zincrby_spec, zinter_spec, zintercard_spec, zinterstore_spec, zlexcount_spec,
    zmpop_spec, zmscore_spec, zpopmax_spec, zpopmin_spec, zrandmember_spec, zrange_spec,
    zrangebylex_spec, zrangebyscore_spec, zrangestore_spec, zrank_spec, zrem_spec,
    zremrangebylex_spec, zremrangebyrank_spec, zremrangebyscore_spec, zrevrange_spec,
    zrevrangebylex_spec, zrevrangebyscore_spec, zrevrank_spec, zscan_spec, zscore_spec,
    zunion_spec, zunionstore_spec,
};
use crate::command::CommandView;
use crate::numbers::{i64_of, usize_of};
use crate::operands::{ZRangeOpts, ZRangeOptsView};
use crate::readings::{
    ParseEnv, double_of, lex_bound_spec, redis_double_of, score_bound, timeout_spec,
};
use crate::resp::unnamed;
use crate::text::{spells, upper_word};
use super::{called, lemma_called, makes, refuses, verdict};

verus! {

/// What `ZADD` stands for, up to its options.
pub proof fn law_zadd(a: Seq<Seq<u8>>, env: &ParseEnv)
    requires
        called(a, "ZADD"@),
    ensures
        a.len() < 4 ==> refuses(a, env, "wrong number of arguments for 'zadd' command"@),
{
    reveal(verdict);
    lemma_called(a);
    assert(named_command_spec(upper_word(a[0]), unnamed(a), env) == zadd_spec(unnamed(a), env)) by {
        lemma_reach_zsets(upper_word(a[0]), unnamed(a), env);
        lemma_zsets_codes();
    }
}

/// What `ZREM` stands for.
pub proof fn law_zrem(a: Seq<Seq<u8>>, env: &ParseEnv)
    requires
        called(a, "ZREM"@),
    ensures
        a.len() < 3 ==> refuses(a, env, "wrong number of arguments for 'zrem' command"@),
        a.len() >= 3 ==> makes(a, env, CommandView::Zrem { key: a[1], members: a.skip(2) }),
{
    reveal(verdict);
    lemma_called(a);
    assert(named_command_spec(upper_word(a[0]), unnamed(a), env) == zrem_spec(unnamed(a))) by {
        lemma_reach_zsets(upper_word(a[0]), unnamed(a), env);
        lemma_zsets_codes();
    }
}

/// What `ZSCORE` stands for.
pub proof fn law_zscore(a: Seq<Seq<u8>>, env: &ParseEnv)
    requires
        called(a, "ZSCORE"@),
    ensures
        a.len() != 3 ==> refuses(a, env, "wrong number of arguments for 'zscore' command"@),
        a.len() == 3 ==> makes(a, env, CommandView::Zscore { key: a[1], member: a[2] }),
{
    reveal(verdict);
    lemma_called(a);
    assert(named_command_spec(upper_word(a[0]), unnamed(a), env) == zscore_spec(unnamed(a))) by {
        lemma_reach_zsets(upper_word(a[0]), unnamed(a), env);
        lemma_zsets_codes();
    }
}

/// What `ZCARD` stands for.
pub proof fn law_zcard(a: Seq<Seq<u8>>, env: &ParseEnv)
    requires
        called(a, "ZCARD"@),
    ensures
        a.len() != 2 ==> refuses(a, env, "wrong number of arguments for 'zcard' command"@),
        a.len() == 2 ==> makes(a, env, CommandView::Zcard(a[1])),
{
    reveal(verdict);
    lemma_called(a);
    assert(named_command_spec(upper_word(a[0]), unnamed(a), env) == zcard_spec(unnamed(a))) by {
        lemma_reach_zsets(upper_word(a[0]), unnamed(a), env);
        lemma_zsets_codes();
    }
}

/// What `ZRANK` stands for.
pub proof fn law_zrank(a: Seq<Seq<u8>>, env: &ParseEnv)
    requires
        called(a, "ZRANK"@),
    ensures
        a.len() != 3 && a.len() != 4 ==>
            refuses(a, env, "wrong number of arguments for 'zrank' command"@),
        ((a.len() == 3 || a.len() == 4)) && a.len() == 4 && !spells(a[3], "WITHSCORE"@) ==>
            refuses(a, env, "syntax error"@),
        ((a.len() == 3 || a.len() == 4)) && a.len() == 4 && spells(a[3], "WITHSCORE"@) ==>
            makes(a, env, CommandView::Zrank { key: a[1], member: a[2], with_score: true }),
        ((a.len() == 3 || a.len() == 4)) && a.len() != 4 ==>
            makes(a, env, CommandView::Zrank { key: a[1], member: a[2], with_score: false }),
{
    reveal(verdict);
    lemma_called(a);
    assert(named_command_spec(upper_word(a[0]), unnamed(a), env) == zrank_spec(unnamed(a))) by {
        lemma_reach_zsets(upper_word(a[0]), unnamed(a), env);
        lemma_zsets_codes();
    }
}

/// What `ZREVRANK` stands for.
pub proof fn law_zrevrank(a: Seq<Seq<u8>>, env: &ParseEnv)
    requires
        called(a, "ZREVRANK"@),
    ensures
        a.len() != 3 && a.len() != 4 ==>
            refuses(a, env, "wrong number of arguments for 'zrevrank' command"@),
        ((a.len() == 3 || a.len() == 4)) && a.len() == 4 && !spells(a[3], "WITHSCORE"@) ==>
            refuses(a, env, "syntax error"@),
        ((a.len() == 3 || a.len() == 4)) && a.len() == 4 && spells(a[3], "WITHSCORE"@) ==>
            makes(a, env, CommandView::Zrevrank { key: a[1], member: a[2], with_score: true }),
        ((a.len() == 3 || a.len() == 4)) && a.len() != 4 ==>
            makes(a, env, CommandView::Zrevrank { key: a[1], member: a[2], with_score: false }),
{
    reveal(verdict);
    lemma_called(a);
    assert(named_command_spec(upper_word(a[0]), unnamed(a), env) == zrevrank_spec(unnamed(a))) by {
        lemma_reach_zsets(upper_word(a[0]), unnamed(a), env);
        lemma_zsets_codes();
    }
}

/// What `ZCOUNT` stands for.
pub proof fn law_zcount(a: Seq<Seq<u8>>, env: &ParseEnv)
    requires
        called(a, "ZCOUNT"@),
    ensures
        a.len() != 4 ==> refuses(a, env, "wrong number of arguments for 'zcount' command"@),
        a.len() == 4 && score_bound(env, a[2]) is Err ==>
            refuses(a, env, score_bound(env, a[2])->Err_0),
        a.len() == 4 && score_bound(env, a[2]) is Ok && score_bound(env, a[3]) is Err ==>
            refuses(a, env, score_bound(env, a[3])->Err_0),
        a.len() == 4 && score_bound(env, a[2]) is Ok && score_bound(env, a[3]) is Ok ==>
            makes(
                a,
                env,
                CommandView::Zcount {
                    key: a[1],
                    min: (score_bound(env, a[2])->Ok_0).0,
                    min_inc: (score_bound(env, a[2])->Ok_0).1,
                    max: (score_bound(env, a[3])->Ok_0).0,
                    max_inc: (score_bound(env, a[3])->Ok_0).1,
                },
            ),
{
    reveal(verdict);
    lemma_called(a);
    assert(named_command_spec(
        upper_word(a[0]),
        unnamed(a),
        env,
    ) == zcount_spec(unnamed(a), env)) by {
        lemma_reach_zsets(upper_word(a[0]), unnamed(a), env);
        lemma_zsets_codes();
    }
}

/// What `ZINCRBY` stands for.
pub proof fn law_zincrby(a: Seq<Seq<u8>>, env: &ParseEnv)
    requires
        called(a, "ZINCRBY"@),
    ensures
        a.len() != 4 ==> refuses(a, env, "wrong number of arguments for 'zincrby' command"@),
        a.len() == 4 && redis_double_of(env, a[2]) is None ==>
            refuses(a, env, "value is not a valid float"@),
        a.len() == 4 && redis_double_of(env, a[2]) is Some ==>
            makes(
                a,
                env,
                CommandView::Zincrby {
                    key: a[1],
                    delta: redis_double_of(env, a[2])->0,
                    member: a[3],
                },
            ),
{
    reveal(verdict);
    lemma_called(a);
    assert(named_command_spec(
        upper_word(a[0]),
        unnamed(a),
        env,
    ) == zincrby_spec(unnamed(a), env)) by {
        lemma_reach_zsets(upper_word(a[0]), unnamed(a), env);
        lemma_zsets_codes();
    }
}

/// What `ZRANGE` stands for, up to its options.
pub proof fn law_zrange(a: Seq<Seq<u8>>, env: &ParseEnv)
    requires
        called(a, "ZRANGE"@),
    ensures
        a.len() < 4 ==> refuses(a, env, "wrong number of arguments for 'zrange' command"@),
{
    reveal(verdict);
    lemma_called(a);
    assert(named_command_spec(
        upper_word(a[0]),
        unnamed(a),
        env,
    ) == zrange_spec(unnamed(a), env)) by {
        lemma_reach_zsets(upper_word(a[0]), unnamed(a), env);
        lemma_zsets_codes();
    }
}

/// What `ZREVRANGE` stands for.
pub proof fn law_zrevrange(a: Seq<Seq<u8>>, env: &ParseEnv)
    requires
        called(a, "ZREVRANGE"@),
    ensures
        a.len() < 4 ==> refuses(a, env, "wrong number of arguments for 'zrevrange' command"@),
        a.len() >= 4 && i64_of(a[2]) is None ==>
            refuses(a, env, "value is not an integer or out of range"@),
        a.len() >= 4 && i64_of(a[2]) is Some && i64_of(a[3]) is None ==>
            refuses(a, env, "value is not an integer or out of range"@),
        i64_of(a[2]) is Some && i64_of(a[3]) is Some && a.len() == 5
            && !spells(a[4], "WITHSCORES"@) ==>
            refuses(a, env, "syntax error"@),
        i64_of(a[2]) is Some && i64_of(a[3]) is Some && a.len() == 5
            && spells(a[4], "WITHSCORES"@) ==>
            makes(
                a,
                env,
                CommandView::Zrange {
                    key: a[1],
                    opts: ZRangeOptsView {
                        start: i64_of(a[2])->0,
                        stop: i64_of(a[3])->0,
                        rev: true,
                        with_scores: true,
                        ..ZRangeOpts::plain()
                    },
                },
            ),
        a.len() >= 4 && i64_of(a[2]) is Some && i64_of(a[3]) is Some && a.len() != 5
            && a.len() != 4 ==>
            refuses(a, env, "syntax error"@),
        i64_of(a[2]) is Some && i64_of(a[3]) is Some && a.len() == 4 ==>
            makes(
                a,
                env,
                CommandView::Zrange {
                    key: a[1],
                    opts: ZRangeOptsView {
                        start: i64_of(a[2])->0,
                        stop: i64_of(a[3])->0,
                        rev: true,
                        with_scores: false,
                        ..ZRangeOpts::plain()
                    },
                },
            ),
{
    reveal(verdict);
    lemma_called(a);
    assert(named_command_spec(upper_word(a[0]), unnamed(a), env) == zrevrange_spec(unnamed(a))) by {
        lemma_reach_zsets(upper_word(a[0]), unnamed(a), env);
        lemma_zsets_codes();
    }
}

/// What `ZRANGEBYSCORE` stands for, up to its options.
pub proof fn law_zrangebyscore(a: Seq<Seq<u8>>, env: &ParseEnv)
    requires
        called(a, "ZRANGEBYSCORE"@),
    ensures
        a.len() < 4 ==> refuses(a, env, "wrong number of arguments for 'zrangebyscore' command"@),
        a.len() >= 4 && score_bound(env, a[2]) is Err ==>
            refuses(a, env, score_bound(env, a[2])->Err_0),
        a.len() >= 4 && score_bound(env, a[2]) is Ok && score_bound(env, a[3]) is Err ==>
            refuses(a, env, score_bound(env, a[3])->Err_0),
{
    reveal(verdict);
    lemma_called(a);
    assert(named_command_spec(
        upper_word(a[0]),
        unnamed(a),
        env,
    ) == zrangebyscore_spec(unnamed(a), env)) by {
        lemma_reach_zsets(upper_word(a[0]), unnamed(a), env);
        lemma_zsets_codes();
    }
}

/// What `ZREVRANGEBYSCORE` stands for, up to its options.
pub proof fn law_zrevrangebyscore(a: Seq<Seq<u8>>, env: &ParseEnv)
    requires
        called(a, "ZREVRANGEBYSCORE"@),
    ensures
        a.len() < 4 ==>
            refuses(a, env, "wrong number of arguments for 'zrevrangebyscore' command"@),
        a.len() >= 4 && score_bound(env, a[2]) is Err ==>
            refuses(a, env, score_bound(env, a[2])->Err_0),
        a.len() >= 4 && score_bound(env, a[2]) is Ok && score_bound(env, a[3]) is Err ==>
            refuses(a, env, score_bound(env, a[3])->Err_0),
{
    reveal(verdict);
    lemma_called(a);
    assert(named_command_spec(
        upper_word(a[0]),
        unnamed(a),
        env,
    ) == zrevrangebyscore_spec(unnamed(a), env)) by {
        lemma_reach_zsets(upper_word(a[0]), unnamed(a), env);
        lemma_zsets_codes();
    }
}

/// What `ZRANGEBYLEX` stands for.
pub proof fn law_zrangebylex(a: Seq<Seq<u8>>, env: &ParseEnv)
    requires
        called(a, "ZRANGEBYLEX"@),
    ensures
        a.len() != 4 && a.len() != 7 ==>
            refuses(a, env, "wrong number of arguments for 'zrangebylex' command"@),
        ((a.len() == 4 || a.len() == 7)) && lex_bound_spec(a[2]) is Err ==>
            refuses(a, env, lex_bound_spec(a[2])->Err_0),
        ((a.len() == 4 || a.len() == 7)) && lex_bound_spec(a[2]) is Ok
            && lex_bound_spec(a[3]) is Err ==>
            refuses(a, env, lex_bound_spec(a[3])->Err_0),
        ((a.len() == 4 || a.len() == 7)) && lex_bound_spec(a[2]) is Ok
            && lex_bound_spec(a[3]) is Ok && a.len() == 7 && upper_word(a[4]) != "LIMIT"@ ==>
            refuses(a, env, "syntax error"@),
        ((a.len() == 4 || a.len() == 7)) && lex_bound_spec(a[2]) is Ok
            && lex_bound_spec(a[3]) is Ok && a.len() == 7 && upper_word(a[4]) == "LIMIT"@
            && i64_of(a[5]) is None ==>
            refuses(a, env, "value is not an integer or out of range"@),
        ((a.len() == 4 || a.len() == 7)) && lex_bound_spec(a[2]) is Ok
            && lex_bound_spec(a[3]) is Ok && a.len() == 7 && upper_word(a[4]) == "LIMIT"@
            && i64_of(a[5]) is Some && i64_of(a[6]) is None ==>
            refuses(a, env, "value is not an integer or out of range"@),
        ((a.len() == 4 || a.len() == 7)) && lex_bound_spec(a[2]) is Ok
            && lex_bound_spec(a[3]) is Ok && a.len() == 7 && upper_word(a[4]) == "LIMIT"@
            && i64_of(a[5]) is Some && i64_of(a[6]) is Some ==>
            makes(
                a,
                env,
                CommandView::Zrange {
                    key: a[1],
                    opts: ZRangeOptsView {
                        by_lex: true,
                        min_lex: lex_bound_spec(a[2])->Ok_0,
                        max_lex: lex_bound_spec(a[3])->Ok_0,
                        rev: false,
                        offset: if i64_of(a[5])->0 < 0 { usize::MAX } else { i64_of(a[5])->0 as usize },
                        count: if i64_of(a[6])->0 < 0 { None } else { Some(i64_of(a[6])->0 as usize) },
                        ..ZRangeOpts::plain()
                    },
                },
            ),
        ((a.len() == 4 || a.len() == 7)) && lex_bound_spec(a[2]) is Ok
            && lex_bound_spec(a[3]) is Ok && a.len() != 7 ==>
            makes(
                a,
                env,
                CommandView::Zrange {
                    key: a[1],
                    opts: ZRangeOptsView {
                        by_lex: true,
                        min_lex: lex_bound_spec(a[2])->Ok_0,
                        max_lex: lex_bound_spec(a[3])->Ok_0,
                        rev: false,
                        ..ZRangeOpts::plain()
                    },
                },
            ),
{
    reveal(verdict);
    lemma_called(a);
    assert(named_command_spec(
        upper_word(a[0]),
        unnamed(a),
        env,
    ) == zrangebylex_spec(unnamed(a))) by {
        lemma_reach_zsets(upper_word(a[0]), unnamed(a), env);
        lemma_zsets_codes();
    }
}

/// What `ZREVRANGEBYLEX` stands for.
pub proof fn law_zrevrangebylex(a: Seq<Seq<u8>>, env: &ParseEnv)
    requires
        called(a, "ZREVRANGEBYLEX"@),
    ensures
        a.len() != 4 && a.len() != 7 ==>
            refuses(a, env, "wrong number of arguments for 'zrevrangebylex' command"@),
        ((a.len() == 4 || a.len() == 7)) && lex_bound_spec(a[2]) is Err ==>
            refuses(a, env, lex_bound_spec(a[2])->Err_0),
        ((a.len() == 4 || a.len() == 7)) && lex_bound_spec(a[2]) is Ok
            && lex_bound_spec(a[3]) is Err ==>
            refuses(a, env, lex_bound_spec(a[3])->Err_0),
        ((a.len() == 4 || a.len() == 7)) && lex_bound_spec(a[2]) is Ok
            && lex_bound_spec(a[3]) is Ok && a.len() == 7 && upper_word(a[4]) != "LIMIT"@ ==>
            refuses(a, env, "syntax error"@),
        ((a.len() == 4 || a.len() == 7)) && lex_bound_spec(a[2]) is Ok
            && lex_bound_spec(a[3]) is Ok && a.len() == 7 && upper_word(a[4]) == "LIMIT"@
            && i64_of(a[5]) is None ==>
            refuses(a, env, "value is not an integer or out of range"@),
        ((a.len() == 4 || a.len() == 7)) && lex_bound_spec(a[2]) is Ok
            && lex_bound_spec(a[3]) is Ok && a.len() == 7 && upper_word(a[4]) == "LIMIT"@
            && i64_of(a[5]) is Some && i64_of(a[6]) is None ==>
            refuses(a, env, "value is not an integer or out of range"@),
        ((a.len() == 4 || a.len() == 7)) && lex_bound_spec(a[2]) is Ok
            && lex_bound_spec(a[3]) is Ok && a.len() == 7 && upper_word(a[4]) == "LIMIT"@
            && i64_of(a[5]) is Some && i64_of(a[6]) is Some ==>
            makes(
                a,
                env,
                CommandView::Zrange {
                    key: a[1],
                    opts: ZRangeOptsView {
                        by_lex: true,
                        min_lex: lex_bound_spec(a[3])->Ok_0,
                        max_lex: lex_bound_spec(a[2])->Ok_0,
                        rev: true,
                        offset: if i64_of(a[5])->0 < 0 { usize::MAX } else { i64_of(a[5])->0 as usize },
                        count: if i64_of(a[6])->0 < 0 { None } else { Some(i64_of(a[6])->0 as usize) },
                        ..ZRangeOpts::plain()
                    },
                },
            ),
        ((a.len() == 4 || a.len() == 7)) && lex_bound_spec(a[2]) is Ok
            && lex_bound_spec(a[3]) is Ok && a.len() != 7 ==>
            makes(
                a,
                env,
                CommandView::Zrange {
                    key: a[1],
                    opts: ZRangeOptsView {
                        by_lex: true,
                        min_lex: lex_bound_spec(a[3])->Ok_0,
                        max_lex: lex_bound_spec(a[2])->Ok_0,
                        rev: true,
                        ..ZRangeOpts::plain()
                    },
                },
            ),
{
    reveal(verdict);
    lemma_called(a);
    assert(named_command_spec(
        upper_word(a[0]),
        unnamed(a),
        env,
    ) == zrevrangebylex_spec(unnamed(a))) by {
        lemma_reach_zsets(upper_word(a[0]), unnamed(a), env);
        lemma_zsets_codes();
    }
}

/// What `ZRANGESTORE` stands for, up to its options.
pub proof fn law_zrangestore(a: Seq<Seq<u8>>, env: &ParseEnv)
    requires
        called(a, "ZRANGESTORE"@),
    ensures
        a.len() < 5 ==> refuses(a, env, "wrong number of arguments for 'zrangestore' command"@),
{
    reveal(verdict);
    lemma_called(a);
    assert(named_command_spec(
        upper_word(a[0]),
        unnamed(a),
        env,
    ) == zrangestore_spec(unnamed(a), env)) by {
        lemma_reach_zsets(upper_word(a[0]), unnamed(a), env);
        lemma_zsets_codes();
    }
}

/// What `ZPOPMIN` stands for.
pub proof fn law_zpopmin(a: Seq<Seq<u8>>, env: &ParseEnv)
    requires
        called(a, "ZPOPMIN"@),
    ensures
        a.len() < 2 ==> refuses(a, env, "wrong number of arguments for 'zpopmin' command"@),
        a.len() >= 3 && i64_of(a[2]) is None ==>
            refuses(a, env, "value is not an integer or out of range"@),
        a.len() >= 3 && i64_of(a[2]) is Some && i64_of(a[2])->0 < 0 ==>
            refuses(a, env, "value is out of range, must be positive"@),
        a.len() >= 3 && i64_of(a[2]) is Some && i64_of(a[2])->0 >= 0 ==>
            makes(
                a,
                env,
                CommandView::Zpopmin { key: a[1], count: Some(i64_of(a[2])->0 as usize) },
            ),
        a.len() >= 2 && a.len() <= 2 ==>
            makes(a, env, CommandView::Zpopmin { key: a[1], count: None }),
{
    reveal(verdict);
    lemma_called(a);
    assert(named_command_spec(upper_word(a[0]), unnamed(a), env) == zpopmin_spec(unnamed(a))) by {
        lemma_reach_zsets(upper_word(a[0]), unnamed(a), env);
        lemma_zsets_codes();
    }
}

/// What `ZPOPMAX` stands for.
pub proof fn law_zpopmax(a: Seq<Seq<u8>>, env: &ParseEnv)
    requires
        called(a, "ZPOPMAX"@),
    ensures
        a.len() < 2 ==> refuses(a, env, "wrong number of arguments for 'zpopmax' command"@),
        a.len() >= 3 && i64_of(a[2]) is None ==>
            refuses(a, env, "value is not an integer or out of range"@),
        a.len() >= 3 && i64_of(a[2]) is Some && i64_of(a[2])->0 < 0 ==>
            refuses(a, env, "value is out of range, must be positive"@),
        a.len() >= 3 && i64_of(a[2]) is Some && i64_of(a[2])->0 >= 0 ==>
            makes(
                a,
                env,
                CommandView::Zpopmax { key: a[1], count: Some(i64_of(a[2])->0 as usize) },
            ),
        a.len() >= 2 && a.len() <= 2 ==>
            makes(a, env, CommandView::Zpopmax { key: a[1], count: None }),
{
    reveal(verdict);
    lemma_called(a);
    assert(named_command_spec(upper_word(a[0]), unnamed(a), env) == zpopmax_spec(unnamed(a))) by {
        lemma_reach_zsets(upper_word(a[0]), unnamed(a), env);
        lemma_zsets_codes();
    }
}

/// What `BZPOPMIN` stands for.
pub proof fn law_bzpopmin(a: Seq<Seq<u8>>, env: &ParseEnv)
    requires
        called(a, "BZPOPMIN"@),
    ensures
        a.len() < 3 ==> refuses(a, env, "wrong number of arguments for 'bzpopmin' command"@),
        a.len() >= 3 && timeout_spec(double_of(env, a[a.len() - 1])) is Err ==>
            refuses(a, env, (timeout_spec(double_of(env, a[a.len() - 1]))->Err_0)),
        a.len() >= 3 && timeout_spec(double_of(env, a[a.len() - 1])) is Ok ==>
            makes(
                a,
                env,
                CommandView::Bzpopmin {
                    keys: a.subrange(1, a.len() - 1),
                    timeout: timeout_spec(double_of(env, a[a.len() - 1]))->Ok_0,
                },
            ),
{
    reveal(verdict);
    lemma_called(a);
    assert(named_command_spec(
        upper_word(a[0]),
        unnamed(a),
        env,
    ) == bzpopmin_spec(unnamed(a), env)) by {
        lemma_reach_zsets(upper_word(a[0]), unnamed(a), env);
        lemma_zsets_codes();
    }
}

/// What `BZPOPMAX` stands for.
pub proof fn law_bzpopmax(a: Seq<Seq<u8>>, env: &ParseEnv)
    requires
        called(a, "BZPOPMAX"@),
    ensures
        a.len() < 3 ==> refuses(a, env, "wrong number of arguments for 'bzpopmax' command"@),
        a.len() >= 3 && timeout_spec(double_of(env, a[a.len() - 1])) is Err ==>
            refuses(a, env, (timeout_spec(double_of(env, a[a.len() - 1]))->Err_0)),
        a.len() >= 3 && timeout_spec(double_of(env, a[a.len() - 1])) is Ok ==>
            makes(
                a,
                env,
                CommandView::Bzpopmax {
                    keys: a.subrange(1, a.len() - 1),
                    timeout: timeout_spec(double_of(env, a[a.len() - 1]))->Ok_0,
                },
            ),
{
    reveal(verdict);
    lemma_called(a);
    assert(named_command_spec(
        upper_word(a[0]),
        unnamed(a),
        env,
    ) == bzpopmax_spec(unnamed(a), env)) by {
        lemma_reach_zsets(upper_word(a[0]), unnamed(a), env);
        lemma_zsets_codes();
    }
}

/// What `ZMPOP` stands for.
pub proof fn law_zmpop(a: Seq<Seq<u8>>, env: &ParseEnv)
    requires
        called(a, "ZMPOP"@),
    ensures
        a.len() < 4 ==> refuses(a, env, "wrong number of arguments for 'zmpop' command"@),
        a.len() >= 4 && i64_of(a[1]) is None ==>
            refuses(a, env, "numkeys should be greater than 0"@),
        a.len() >= 4 && i64_of(a[1]) is Some && i64_of(a[1])->0 <= 0 ==>
            refuses(a, env, "numkeys should be greater than 0"@),
        a.len() >= 4 && i64_of(a[1]) is Some && i64_of(a[1])->0 > 0
            && ((i64_of(a[1])->0 as usize) >= a.len() || a.len() - (i64_of(a[1])->0 as usize) <= 2) ==>
            refuses(a, env, "syntax error"@),
        a.len() >= 4 && i64_of(a[1]) is Some && i64_of(a[1])->0 > 0
            && (i64_of(a[1])->0 as usize) < a.len() && a.len() - (i64_of(a[1])->0 as usize) > 2
            && (upper_word(a[((i64_of(a[1])->0 as usize) + 2)])) != "MIN"@
            && (upper_word(a[((i64_of(a[1])->0 as usize) + 2)])) != "MAX"@ ==>
            refuses(a, env, "syntax error"@),
        a.len() >= 4 && i64_of(a[1]) is Some && i64_of(a[1])->0 > 0
            && (i64_of(a[1])->0 as usize) < a.len() && a.len() - (i64_of(a[1])->0 as usize) > 2
            && (((upper_word(a[((i64_of(a[1])->0 as usize) + 2)])) == "MIN"@ || (upper_word(a[((i64_of(a[1])->0 as usize) + 2)])) == "MAX"@))
            && a.len() - ((i64_of(a[1])->0 as usize) + 2) > 1
            && a.len() - ((i64_of(a[1])->0 as usize) + 2) != 3 ==>
            refuses(a, env, "syntax error"@),
        a.len() >= 4 && i64_of(a[1]) is Some && i64_of(a[1])->0 > 0
            && (i64_of(a[1])->0 as usize) < a.len() && a.len() - (i64_of(a[1])->0 as usize) > 2
            && (((upper_word(a[((i64_of(a[1])->0 as usize) + 2)])) == "MIN"@ || (upper_word(a[((i64_of(a[1])->0 as usize) + 2)])) == "MAX"@))
            && a.len() - ((i64_of(a[1])->0 as usize) + 2) > 1
            && a.len() - ((i64_of(a[1])->0 as usize) + 2) == 3
            && !spells(a[((i64_of(a[1])->0 as usize) + 2) + 1], "COUNT"@) ==>
            refuses(a, env, "syntax error"@),
        a.len() >= 4 && i64_of(a[1]) is Some && i64_of(a[1])->0 > 0
            && (i64_of(a[1])->0 as usize) < a.len() && a.len() - (i64_of(a[1])->0 as usize) > 2
            && (((upper_word(a[((i64_of(a[1])->0 as usize) + 2)])) == "MIN"@ || (upper_word(a[((i64_of(a[1])->0 as usize) + 2)])) == "MAX"@))
            && a.len() - ((i64_of(a[1])->0 as usize) + 2) > 1
            && a.len() - ((i64_of(a[1])->0 as usize) + 2) == 3
            && spells(a[((i64_of(a[1])->0 as usize) + 2) + 1], "COUNT"@)
            && i64_of(a[((i64_of(a[1])->0 as usize) + 2) + 2]) is None ==>
            refuses(a, env, "count should be greater than 0"@),
        a.len() >= 4 && i64_of(a[1]) is Some && i64_of(a[1])->0 > 0
            && (i64_of(a[1])->0 as usize) < a.len() && a.len() - (i64_of(a[1])->0 as usize) > 2
            && (((upper_word(a[((i64_of(a[1])->0 as usize) + 2)])) == "MIN"@ || (upper_word(a[((i64_of(a[1])->0 as usize) + 2)])) == "MAX"@))
            && a.len() - ((i64_of(a[1])->0 as usize) + 2) > 1
            && a.len() - ((i64_of(a[1])->0 as usize) + 2) == 3
            && spells(a[((i64_of(a[1])->0 as usize) + 2) + 1], "COUNT"@)
            && i64_of(a[((i64_of(a[1])->0 as usize) + 2) + 2]) is Some
            && (i64_of(a[((i64_of(a[1])->0 as usize) + 2) + 2])->0) <= 0 ==>
            refuses(a, env, "count should be greater than 0"@),
        a.len() >= 4 && i64_of(a[1]) is Some && i64_of(a[1])->0 > 0
            && (i64_of(a[1])->0 as usize) < a.len() && a.len() - (i64_of(a[1])->0 as usize) > 2
            && (((upper_word(a[((i64_of(a[1])->0 as usize) + 2)])) == "MIN"@ || (upper_word(a[((i64_of(a[1])->0 as usize) + 2)])) == "MAX"@))
            && a.len() - ((i64_of(a[1])->0 as usize) + 2) > 1
            && a.len() - ((i64_of(a[1])->0 as usize) + 2) == 3
            && spells(a[((i64_of(a[1])->0 as usize) + 2) + 1], "COUNT"@)
            && i64_of(a[((i64_of(a[1])->0 as usize) + 2) + 2]) is Some
            && (i64_of(a[((i64_of(a[1])->0 as usize) + 2) + 2])->0) > 0 ==>
            makes(
                a,
                env,
                CommandView::Zmpop {
                    keys: a.subrange(2, ((i64_of(a[1])->0 as usize) + 2)),
                    is_min: (upper_word(a[((i64_of(a[1])->0 as usize) + 2)])) == "MIN"@,
                    count: (i64_of(a[((i64_of(a[1])->0 as usize) + 2) + 2])->0) as usize,
                },
            ),
        a.len() >= 4 && i64_of(a[1]) is Some && i64_of(a[1])->0 > 0
            && (i64_of(a[1])->0 as usize) < a.len() && a.len() - (i64_of(a[1])->0 as usize) > 2
            && (((upper_word(a[((i64_of(a[1])->0 as usize) + 2)])) == "MIN"@ || (upper_word(a[((i64_of(a[1])->0 as usize) + 2)])) == "MAX"@))
            && a.len() - ((i64_of(a[1])->0 as usize) + 2) <= 1 ==>
            makes(
                a,
                env,
                CommandView::Zmpop {
                    keys: a.subrange(2, ((i64_of(a[1])->0 as usize) + 2)),
                    is_min: (upper_word(a[((i64_of(a[1])->0 as usize) + 2)])) == "MIN"@,
                    count: 1,
                },
            ),
{
    reveal(verdict);
    lemma_called(a);
    assert(named_command_spec(upper_word(a[0]), unnamed(a), env) == zmpop_spec(unnamed(a))) by {
        lemma_reach_zsets(upper_word(a[0]), unnamed(a), env);
        lemma_zsets_codes();
    }
    reveal(name_code);
    reveal_strlit("MAX");
    reveal_strlit("MIN");
    assert(name_code("MAX"@) == 8494156822970903);
    assert(name_code("MIN"@) == 8497592797012503);
}

/// What `BZMPOP` stands for.
pub proof fn law_bzmpop(a: Seq<Seq<u8>>, env: &ParseEnv)
    requires
        called(a, "BZMPOP"@),
    ensures
        a.len() < 5 ==> refuses(a, env, "wrong number of arguments for 'bzmpop' command"@),
        a.len() >= 5 && timeout_spec(double_of(env, a[1])) is Err ==>
            refuses(a, env, (timeout_spec(double_of(env, a[1]))->Err_0)),
        a.len() >= 5 && timeout_spec(double_of(env, a[1])) is Ok && i64_of(a[2]) is None ==>
            refuses(a, env, "numkeys should be greater than 0"@),
        a.len() >= 5 && timeout_spec(double_of(env, a[1])) is Ok && i64_of(a[2]) is Some
            && i64_of(a[2])->0 <= 0 ==>
            refuses(a, env, "numkeys should be greater than 0"@),
        a.len() >= 5 && timeout_spec(double_of(env, a[1])) is Ok && i64_of(a[2]) is Some
            && i64_of(a[2])->0 > 0
            && ((i64_of(a[2])->0 as usize) >= a.len() || a.len() - (i64_of(a[2])->0 as usize) <= 3) ==>
            refuses(a, env, "syntax error"@),
        a.len() >= 5 && timeout_spec(double_of(env, a[1])) is Ok && i64_of(a[2]) is Some
            && i64_of(a[2])->0 > 0 && (i64_of(a[2])->0 as usize) < a.len()
            && a.len() - (i64_of(a[2])->0 as usize) > 3
            && (upper_word(a[((i64_of(a[2])->0 as usize) + 3)])) != "MIN"@
            && (upper_word(a[((i64_of(a[2])->0 as usize) + 3)])) != "MAX"@ ==>
            refuses(a, env, "syntax error"@),
        a.len() >= 5 && timeout_spec(double_of(env, a[1])) is Ok && i64_of(a[2]) is Some
            && i64_of(a[2])->0 > 0 && (i64_of(a[2])->0 as usize) < a.len()
            && a.len() - (i64_of(a[2])->0 as usize) > 3
            && (((upper_word(a[((i64_of(a[2])->0 as usize) + 3)])) == "MIN"@ || (upper_word(a[((i64_of(a[2])->0 as usize) + 3)])) == "MAX"@))
            && a.len() - ((i64_of(a[2])->0 as usize) + 3) > 1
            && a.len() - ((i64_of(a[2])->0 as usize) + 3) != 3 ==>
            refuses(a, env, "syntax error"@),
        a.len() >= 5 && timeout_spec(double_of(env, a[1])) is Ok && i64_of(a[2]) is Some
            && i64_of(a[2])->0 > 0 && (i64_of(a[2])->0 as usize) < a.len()
            && a.len() - (i64_of(a[2])->0 as usize) > 3
            && (((upper_word(a[((i64_of(a[2])->0 as usize) + 3)])) == "MIN"@ || (upper_word(a[((i64_of(a[2])->0 as usize) + 3)])) == "MAX"@))
            && a.len() - ((i64_of(a[2])->0 as usize) + 3) > 1
            && a.len() - ((i64_of(a[2])->0 as usize) + 3) == 3
            && !spells(a[((i64_of(a[2])->0 as usize) + 3) + 1], "COUNT"@) ==>
            refuses(a, env, "syntax error"@),
        a.len() >= 5 && timeout_spec(double_of(env, a[1])) is Ok && i64_of(a[2]) is Some
            && i64_of(a[2])->0 > 0 && (i64_of(a[2])->0 as usize) < a.len()
            && a.len() - (i64_of(a[2])->0 as usize) > 3
            && (((upper_word(a[((i64_of(a[2])->0 as usize) + 3)])) == "MIN"@ || (upper_word(a[((i64_of(a[2])->0 as usize) + 3)])) == "MAX"@))
            && a.len() - ((i64_of(a[2])->0 as usize) + 3) > 1
            && a.len() - ((i64_of(a[2])->0 as usize) + 3) == 3
            && spells(a[((i64_of(a[2])->0 as usize) + 3) + 1], "COUNT"@)
            && i64_of(a[((i64_of(a[2])->0 as usize) + 3) + 2]) is None ==>
            refuses(a, env, "count should be greater than 0"@),
        a.len() >= 5 && timeout_spec(double_of(env, a[1])) is Ok && i64_of(a[2]) is Some
            && i64_of(a[2])->0 > 0 && (i64_of(a[2])->0 as usize) < a.len()
            && a.len() - (i64_of(a[2])->0 as usize) > 3
            && (((upper_word(a[((i64_of(a[2])->0 as usize) + 3)])) == "MIN"@ || (upper_word(a[((i64_of(a[2])->0 as usize) + 3)])) == "MAX"@))
            && a.len() - ((i64_of(a[2])->0 as usize) + 3) > 1
            && a.len() - ((i64_of(a[2])->0 as usize) + 3) == 3
            && spells(a[((i64_of(a[2])->0 as usize) + 3) + 1], "COUNT"@)
            && i64_of(a[((i64_of(a[2])->0 as usize) + 3) + 2]) is Some
            && (i64_of(a[((i64_of(a[2])->0 as usize) + 3) + 2])->0) <= 0 ==>
            refuses(a, env, "count should be greater than 0"@),
        a.len() >= 5 && timeout_spec(double_of(env, a[1])) is Ok && i64_of(a[2]) is Some
            && i64_of(a[2])->0 > 0 && (i64_of(a[2])->0 as usize) < a.len()
            && a.len() - (i64_of(a[2])->0 as usize) > 3
            && (((upper_word(a[((i64_of(a[2])->0 as usize) + 3)])) == "MIN"@ || (upper_word(a[((i64_of(a[2])->0 as usize) + 3)])) == "MAX"@))
            && a.len() - ((i64_of(a[2])->0 as usize) + 3) > 1
            && a.len() - ((i64_of(a[2])->0 as usize) + 3) == 3
            && spells(a[((i64_of(a[2])->0 as usize) + 3) + 1], "COUNT"@)
            && i64_of(a[((i64_of(a[2])->0 as usize) + 3) + 2]) is Some
            && (i64_of(a[((i64_of(a[2])->0 as usize) + 3) + 2])->0) > 0 ==>
            makes(
                a,
                env,
                CommandView::Bzmpop {
                    timeout: timeout_spec(double_of(env, a[1]))->Ok_0,
                    keys: a.subrange(3, ((i64_of(a[2])->0 as usize) + 3)),
                    is_min: (upper_word(a[((i64_of(a[2])->0 as usize) + 3)])) == "MIN"@,
                    count: (i64_of(a[((i64_of(a[2])->0 as usize) + 3) + 2])->0) as usize,
                },
            ),
        a.len() >= 5 && timeout_spec(double_of(env, a[1])) is Ok && i64_of(a[2]) is Some
            && i64_of(a[2])->0 > 0 && (i64_of(a[2])->0 as usize) < a.len()
            && a.len() - (i64_of(a[2])->0 as usize) > 3
            && (((upper_word(a[((i64_of(a[2])->0 as usize) + 3)])) == "MIN"@ || (upper_word(a[((i64_of(a[2])->0 as usize) + 3)])) == "MAX"@))
            && a.len() - ((i64_of(a[2])->0 as usize) + 3) <= 1 ==>
            makes(
                a,
                env,
                CommandView::Bzmpop {
                    timeout: timeout_spec(double_of(env, a[1]))->Ok_0,
                    keys: a.subrange(3, ((i64_of(a[2])->0 as usize) + 3)),
                    is_min: (upper_word(a[((i64_of(a[2])->0 as usize) + 3)])) == "MIN"@,
                    count: 1,
                },
            ),
{
    reveal(verdict);
    lemma_called(a);
    assert(named_command_spec(
        upper_word(a[0]),
        unnamed(a),
        env,
    ) == bzmpop_spec(unnamed(a), env)) by {
        lemma_reach_zsets(upper_word(a[0]), unnamed(a), env);
        lemma_zsets_codes();
    }
    reveal(name_code);
    reveal_strlit("MAX");
    reveal_strlit("MIN");
    assert(name_code("MAX"@) == 8494156822970903);
    assert(name_code("MIN"@) == 8497592797012503);
}

/// What `ZUNIONSTORE` stands for, up to its options.
pub proof fn law_zunionstore(a: Seq<Seq<u8>>, env: &ParseEnv)
    requires
        called(a, "ZUNIONSTORE"@),
    ensures
        a.len() < 4 ==> refuses(a, env, "wrong number of arguments for 'zunionstore' command"@),
        a.len() >= 4 && i64_of(a[2]) is None ==>
            refuses(a, env, "value is not an integer or out of range"@),
        a.len() >= 4 && i64_of(a[2]) is Some && i64_of(a[2])->0 <= 0 ==>
            refuses(a, env, "at least 1 input key is needed for 'zunionstore' command"@),
        a.len() >= 4 && i64_of(a[2]) is Some && i64_of(a[2])->0 > 0
            && ((i64_of(a[2])->0 as usize) >= a.len() || a.len() - (i64_of(a[2])->0 as usize) <= 2) ==>
            refuses(a, env, "syntax error"@),
{
    reveal(verdict);
    lemma_called(a);
    assert(named_command_spec(
        upper_word(a[0]),
        unnamed(a),
        env,
    ) == zunionstore_spec(unnamed(a), env)) by {
        lemma_reach_zsets(upper_word(a[0]), unnamed(a), env);
        lemma_zsets_codes();
    }
}

/// What `ZINTERSTORE` stands for, up to its options.
pub proof fn law_zinterstore(a: Seq<Seq<u8>>, env: &ParseEnv)
    requires
        called(a, "ZINTERSTORE"@),
    ensures
        a.len() < 4 ==> refuses(a, env, "wrong number of arguments for 'zinterstore' command"@),
        a.len() >= 4 && i64_of(a[2]) is None ==>
            refuses(a, env, "value is not an integer or out of range"@),
        a.len() >= 4 && i64_of(a[2]) is Some && i64_of(a[2])->0 <= 0 ==>
            refuses(a, env, "at least 1 input key is needed for 'zinterstore' command"@),
        a.len() >= 4 && i64_of(a[2]) is Some && i64_of(a[2])->0 > 0
            && ((i64_of(a[2])->0 as usize) >= a.len() || a.len() - (i64_of(a[2])->0 as usize) <= 2) ==>
            refuses(a, env, "syntax error"@),
{
    reveal(verdict);
    lemma_called(a);
    assert(named_command_spec(
        upper_word(a[0]),
        unnamed(a),
        env,
    ) == zinterstore_spec(unnamed(a), env)) by {
        lemma_reach_zsets(upper_word(a[0]), unnamed(a), env);
        lemma_zsets_codes();
    }
}

/// What `ZDIFFSTORE` stands for.
pub proof fn law_zdiffstore(a: Seq<Seq<u8>>, env: &ParseEnv)
    requires
        called(a, "ZDIFFSTORE"@),
    ensures
        a.len() < 4 ==> refuses(a, env, "wrong number of arguments for 'zdiffstore' command"@),
        a.len() >= 4 && i64_of(a[2]) is None ==>
            refuses(a, env, "value is not an integer or out of range"@),
        a.len() >= 4 && i64_of(a[2]) is Some && i64_of(a[2])->0 <= 0 ==>
            refuses(a, env, "at least 1 input key is needed for 'zdiffstore' command"@),
        a.len() >= 4 && i64_of(a[2]) is Some && i64_of(a[2])->0 > 0
            && a.len() - 3 != i64_of(a[2])->0 as usize ==>
            refuses(a, env, "syntax error"@),
        a.len() >= 4 && i64_of(a[2]) is Some && i64_of(a[2])->0 > 0
            && a.len() - 3 == i64_of(a[2])->0 as usize ==>
            makes(a, env, CommandView::Zdiffstore { destination: a[1], keys: a.skip(3) }),
{
    reveal(verdict);
    lemma_called(a);
    assert(named_command_spec(
        upper_word(a[0]),
        unnamed(a),
        env,
    ) == zdiffstore_spec(unnamed(a))) by {
        lemma_reach_zsets(upper_word(a[0]), unnamed(a), env);
        lemma_zsets_codes();
    }
}

/// What `ZDIFF` stands for.
pub proof fn law_zdiff(a: Seq<Seq<u8>>, env: &ParseEnv)
    requires
        called(a, "ZDIFF"@),
    ensures
        a.len() < 3 ==> refuses(a, env, "wrong number of arguments for 'zdiff' command"@),
        a.len() >= 3 && i64_of(a[1]) is None ==>
            refuses(a, env, "value is not an integer or out of range"@),
        a.len() >= 3 && i64_of(a[1]) is Some && i64_of(a[1])->0 <= 0 ==>
            refuses(a, env, "at least 1 input key is needed for 'zdiff' command"@),
        a.len() >= 3 && i64_of(a[1]) is Some && i64_of(a[1])->0 > 0
            && ((i64_of(a[1])->0 as usize) >= a.len() || a.len() - (i64_of(a[1])->0 as usize) <= 1) ==>
            refuses(a, env, "syntax error"@),
        a.len() >= 3 && i64_of(a[1]) is Some && i64_of(a[1])->0 > 0
            && (i64_of(a[1])->0 as usize) < a.len() && a.len() - (i64_of(a[1])->0 as usize) > 1
            && a.len() > ((i64_of(a[1])->0 as usize) + 2)
            && (upper_word(a[((i64_of(a[1])->0 as usize) + 2)])) != "WITHSCORES"@ ==>
            refuses(a, env, "syntax error"@),
        a.len() >= 3 && i64_of(a[1]) is Some && i64_of(a[1])->0 > 0
            && (i64_of(a[1])->0 as usize) < a.len() && a.len() - (i64_of(a[1])->0 as usize) > 1
            && a.len() > ((i64_of(a[1])->0 as usize) + 2)
            && (upper_word(a[((i64_of(a[1])->0 as usize) + 2)])) == "WITHSCORES"@ ==>
            makes(
                a,
                env,
                CommandView::Zdiff {
                    keys: a.subrange(2, ((i64_of(a[1])->0 as usize) + 2)),
                    with_scores: true,
                },
            ),
        a.len() >= 3 && i64_of(a[1]) is Some && i64_of(a[1])->0 > 0
            && (i64_of(a[1])->0 as usize) < a.len() && a.len() - (i64_of(a[1])->0 as usize) > 1
            && a.len() <= ((i64_of(a[1])->0 as usize) + 2) ==>
            makes(
                a,
                env,
                CommandView::Zdiff {
                    keys: a.subrange(2, ((i64_of(a[1])->0 as usize) + 2)),
                    with_scores: false,
                },
            ),
{
    reveal(verdict);
    lemma_called(a);
    assert(named_command_spec(upper_word(a[0]), unnamed(a), env) == zdiff_spec(unnamed(a))) by {
        lemma_reach_zsets(upper_word(a[0]), unnamed(a), env);
        lemma_zsets_codes();
    }
}

/// What `ZUNION` stands for, up to its options.
pub proof fn law_zunion(a: Seq<Seq<u8>>, env: &ParseEnv)
    requires
        called(a, "ZUNION"@),
    ensures
        a.len() < 3 ==> refuses(a, env, "wrong number of arguments for 'zunion' command"@),
        a.len() >= 3 && i64_of(a[1]) is None ==>
            refuses(a, env, "value is not an integer or out of range"@),
        a.len() >= 3 && i64_of(a[1]) is Some && i64_of(a[1])->0 <= 0 ==>
            refuses(a, env, "at least 1 input key is needed for 'zunion' command"@),
        a.len() >= 3 && i64_of(a[1]) is Some && i64_of(a[1])->0 > 0
            && ((i64_of(a[1])->0 as usize) >= a.len() || a.len() - (i64_of(a[1])->0 as usize) <= 1) ==>
            refuses(a, env, "syntax error"@),
{
    reveal(verdict);
    lemma_called(a);
    assert(named_command_spec(
        upper_word(a[0]),
        unnamed(a),
        env,
    ) == zunion_spec(unnamed(a), env)) by {
        lemma_reach_zsets(upper_word(a[0]), unnamed(a), env);
        lemma_zsets_codes();
    }
}

/// What `ZINTER` stands for, up to its options.
pub proof fn law_zinter(a: Seq<Seq<u8>>, env: &ParseEnv)
    requires
        called(a, "ZINTER"@),
    ensures
        a.len() < 3 ==> refuses(a, env, "wrong number of arguments for 'zinter' command"@),
        a.len() >= 3 && i64_of(a[1]) is None ==>
            refuses(a, env, "value is not an integer or out of range"@),
        a.len() >= 3 && i64_of(a[1]) is Some && i64_of(a[1])->0 <= 0 ==>
            refuses(a, env, "at least 1 input key is needed for 'zinter' command"@),
        a.len() >= 3 && i64_of(a[1]) is Some && i64_of(a[1])->0 > 0
            && ((i64_of(a[1])->0 as usize) >= a.len() || a.len() - (i64_of(a[1])->0 as usize) <= 1) ==>
            refuses(a, env, "syntax error"@),
{
    reveal(verdict);
    lemma_called(a);
    assert(named_command_spec(
        upper_word(a[0]),
        unnamed(a),
        env,
    ) == zinter_spec(unnamed(a), env)) by {
        lemma_reach_zsets(upper_word(a[0]), unnamed(a), env);
        lemma_zsets_codes();
    }
}

/// What `ZINTERCARD` stands for, up to its options.
pub proof fn law_zintercard(a: Seq<Seq<u8>>, env: &ParseEnv)
    requires
        called(a, "ZINTERCARD"@),
    ensures
        a.len() < 3 ==> refuses(a, env, "wrong number of arguments for 'zintercard' command"@),
        a.len() >= 3 && i64_of(a[1]) is None ==>
            refuses(a, env, "value is not an integer or out of range"@),
        a.len() >= 3 && i64_of(a[1]) is Some && i64_of(a[1])->0 <= 0 ==>
            refuses(a, env, "at least 1 input key is needed for 'zintercard' command"@),
        a.len() >= 3 && i64_of(a[1]) is Some && i64_of(a[1])->0 > 0
            && ((i64_of(a[1])->0 as usize) >= a.len() || a.len() - (i64_of(a[1])->0 as usize) <= 1) ==>
            refuses(a, env, "Number of keys can't be greater than number of args"@),
{
    reveal(verdict);
    lemma_called(a);
    assert(named_command_spec(
        upper_word(a[0]),
        unnamed(a),
        env,
    ) == zintercard_spec(unnamed(a))) by {
        lemma_reach_zsets(upper_word(a[0]), unnamed(a), env);
        lemma_zsets_codes();
    }
}

/// What `ZMSCORE` stands for.
pub proof fn law_zmscore(a: Seq<Seq<u8>>, env: &ParseEnv)
    requires
        called(a, "ZMSCORE"@),
    ensures
        a.len() < 3 ==> refuses(a, env, "wrong number of arguments for 'zmscore' command"@),
        a.len() >= 3 ==> makes(a, env, CommandView::Zmscore { key: a[1], members: a.skip(2) }),
{
    reveal(verdict);
    lemma_called(a);
    assert(named_command_spec(upper_word(a[0]), unnamed(a), env) == zmscore_spec(unnamed(a))) by {
        lemma_reach_zsets(upper_word(a[0]), unnamed(a), env);
        lemma_zsets_codes();
    }
}

/// What `ZRANDMEMBER` stands for.
pub proof fn law_zrandmember(a: Seq<Seq<u8>>, env: &ParseEnv)
    requires
        called(a, "ZRANDMEMBER"@),
    ensures
        (a.len() < 2 || a.len() > 4) ==>
            refuses(a, env, "wrong number of arguments for 'zrandmember' command"@),
        a.len() >= 3 && a.len() <= 4 && i64_of(a[2]) is None ==>
            refuses(a, env, "value is not an integer or out of range"@),
        a.len() >= 3 && a.len() <= 4 && i64_of(a[2]) is Some && i64_of(a[2])->0 == i64::MIN ==>
            refuses(a, env, "value is out of range"@),
        i64_of(a[2]) is Some && i64_of(a[2])->0 != i64::MIN && a.len() == 4
            && !spells(a[3], "WITHSCORES"@) ==>
            refuses(a, env, "syntax error"@),
        i64_of(a[2]) is Some && i64_of(a[2])->0 != i64::MIN && a.len() == 4
            && spells(a[3], "WITHSCORES"@)
            && (i64_of(a[2])->0 < -4611686018427387904 || i64_of(a[2])->0 > 4611686018427387903) ==>
            refuses(a, env, "value is out of range"@),
        i64_of(a[2]) is Some && i64_of(a[2])->0 != i64::MIN && a.len() == 4
            && spells(a[3], "WITHSCORES"@) && i64_of(a[2])->0 >= -4611686018427387904
            && i64_of(a[2])->0 <= 4611686018427387903 ==>
            makes(
                a,
                env,
                CommandView::Zrandmember {
                    key: a[1],
                    count: Some(i64_of(a[2])->0),
                    with_scores: true,
                },
            ),
        a.len() >= 3 && a.len() <= 4 && i64_of(a[2]) is Some && i64_of(a[2])->0 != i64::MIN
            && a.len() != 4 ==>
            makes(
                a,
                env,
                CommandView::Zrandmember {
                    key: a[1],
                    count: Some(i64_of(a[2])->0),
                    with_scores: false,
                },
            ),
        a.len() >= 2 && a.len() <= 4 && a.len() < 3 ==>
            makes(a, env, CommandView::Zrandmember { key: a[1], count: None, with_scores: false }),
{
    reveal(verdict);
    lemma_called(a);
    assert(named_command_spec(
        upper_word(a[0]),
        unnamed(a),
        env,
    ) == zrandmember_spec(unnamed(a))) by {
        lemma_reach_zsets(upper_word(a[0]), unnamed(a), env);
        lemma_zsets_codes();
    }
}

/// What `ZREMRANGEBYRANK` stands for.
pub proof fn law_zremrangebyrank(a: Seq<Seq<u8>>, env: &ParseEnv)
    requires
        called(a, "ZREMRANGEBYRANK"@),
    ensures
        a.len() != 4 ==>
            refuses(a, env, "wrong number of arguments for 'zremrangebyrank' command"@),
        a.len() == 4 && i64_of(a[2]) is None ==>
            refuses(a, env, "value is not an integer or out of range"@),
        a.len() == 4 && i64_of(a[2]) is Some && i64_of(a[3]) is None ==>
            refuses(a, env, "value is not an integer or out of range"@),
        a.len() == 4 && i64_of(a[2]) is Some && i64_of(a[3]) is Some ==>
            makes(
                a,
                env,
                CommandView::Zremrangebyrank {
                    key: a[1],
                    start: i64_of(a[2])->0,
                    stop: i64_of(a[3])->0,
                },
            ),
{
    reveal(verdict);
    lemma_called(a);
    assert(named_command_spec(
        upper_word(a[0]),
        unnamed(a),
        env,
    ) == zremrangebyrank_spec(unnamed(a))) by {
        lemma_reach_zsets(upper_word(a[0]), unnamed(a), env);
        lemma_zsets_codes();
    }
}

/// What `ZREMRANGEBYSCORE` stands for.
pub proof fn law_zremrangebyscore(a: Seq<Seq<u8>>, env: &ParseEnv)
    requires
        called(a, "ZREMRANGEBYSCORE"@),
    ensures
        a.len() != 4 ==>
            refuses(a, env, "wrong number of arguments for 'zremrangebyscore' command"@),
        a.len() == 4 && score_bound(env, a[2]) is Err ==>
            refuses(a, env, score_bound(env, a[2])->Err_0),
        a.len() == 4 && score_bound(env, a[2]) is Ok && score_bound(env, a[3]) is Err ==>
            refuses(a, env, score_bound(env, a[3])->Err_0),
        a.len() == 4 && score_bound(env, a[2]) is Ok && score_bound(env, a[3]) is Ok ==>
            makes(
                a,
                env,
                CommandView::Zremrangebyscore {
                    key: a[1],
                    min_score: (score_bound(env, a[2])->Ok_0).0,
                    min_inc: (score_bound(env, a[2])->Ok_0).1,
                    max_score: (score_bound(env, a[3])->Ok_0).0,
                    max_inc: (score_bound(env, a[3])->Ok_0).1,
                },
            ),
{
    reveal(verdict);
    lemma_called(a);
    assert(named_command_spec(
        upper_word(a[0]),
        unnamed(a),
        env,
    ) == zremrangebyscore_spec(unnamed(a), env)) by {
        lemma_reach_zsets(upper_word(a[0]), unnamed(a), env);
        lemma_zsets_codes();
    }
}

/// What `ZREMRANGEBYLEX` stands for.
pub proof fn law_zremrangebylex(a: Seq<Seq<u8>>, env: &ParseEnv)
    requires
        called(a, "ZREMRANGEBYLEX"@),
    ensures
        a.len() != 4 ==> refuses(a, env, "wrong number of arguments for 'zremrangebylex' command"@),
        a.len() == 4 && lex_bound_spec(a[2]) is Err ==>
            refuses(a, env, lex_bound_spec(a[2])->Err_0),
        a.len() == 4 && lex_bound_spec(a[2]) is Ok && lex_bound_spec(a[3]) is Err ==>
            refuses(a, env, lex_bound_spec(a[3])->Err_0),
        a.len() == 4 && lex_bound_spec(a[2]) is Ok && lex_bound_spec(a[3]) is Ok ==>
            makes(
                a,
                env,
                CommandView::Zremrangebylex {
                    key: a[1],
                    min: lex_bound_spec(a[2])->Ok_0,
                    max: lex_bound_spec(a[3])->Ok_0,
                },
            ),
{
    reveal(verdict);
    lemma_called(a);
    assert(named_command_spec(
        upper_word(a[0]),
        unnamed(a),
        env,
    ) == zremrangebylex_spec(unnamed(a))) by {
        lemma_reach_zsets(upper_word(a[0]), unnamed(a), env);
        lemma_zsets_codes();
    }
}

/// What `ZLEXCOUNT` stands for.
pub proof fn law_zlexcount(a: Seq<Seq<u8>>, env: &ParseEnv)
    requires
        called(a, "ZLEXCOUNT"@),
    ensures
        a.len() != 4 ==> refuses(a, env, "wrong number of arguments for 'zlexcount' command"@),
        a.len() == 4 && lex_bound_spec(a[2]) is Err ==>
            refuses(a, env, lex_bound_spec(a[2])->Err_0),
        a.len() == 4 && lex_bound_spec(a[2]) is Ok && lex_bound_spec(a[3]) is Err ==>
            refuses(a, env, lex_bound_spec(a[3])->Err_0),
        a.len() == 4 && lex_bound_spec(a[2]) is Ok && lex_bound_spec(a[3]) is Ok ==>
            makes(
                a,
                env,
                CommandView::Zlexcount {
                    key: a[1],
                    min: lex_bound_spec(a[2])->Ok_0,
                    max: lex_bound_spec(a[3])->Ok_0,
                },
            ),
{
    reveal(verdict);
    lemma_called(a);
    assert(named_command_spec(upper_word(a[0]), unnamed(a), env) == zlexcount_spec(unnamed(a))) by {
        lemma_reach_zsets(upper_word(a[0]), unnamed(a), env);
        lemma_zsets_codes();
    }
}

/// What `ZSCAN` stands for, up to its options.
pub proof fn law_zscan(a: Seq<Seq<u8>>, env: &ParseEnv)
    requires
        called(a, "ZSCAN"@),
    ensures
        a.len() < 3 ==> refuses(a, env, "wrong number of arguments for 'zscan' command"@),
        a.len() >= 3 && usize_of(a[2]) is None ==>
            refuses(a, env, "value is not an integer or out of range"@),
{
    reveal(verdict);
    lemma_called(a);
    assert(named_command_spec(upper_word(a[0]), unnamed(a), env) == zscan_spec(unnamed(a))) by {
        lemma_reach_zsets(upper_word(a[0]), unnamed(a), env);
        lemma_zsets_codes();
    }
}

} // verus!
