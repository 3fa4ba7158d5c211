//! What some commands on sorted sets are made of, shape by shape.
use vstd::prelude::*;

use crate::build::named_command_spec;
use crate::build::naming::{lemma_reach_zsets, lemma_zsets_codes, name_code};
use crate::build::zsets::{
    combine_options, zinter_spec, zinterstore_spec, zrange_options, zrange_spec,
    zrangestore_options, zrangestore_spec, zunion_spec, zunionstore_spec,
};
use crate::command::CommandView;
use crate::numbers::i64_of;
use crate::operands::{Aggregate, ZRangeOpts, ZRangeOptsView};
use crate::readings::{ParseEnv, lex_bound_spec, score_bound};
use crate::resp::unnamed;
use crate::text::upper_word;
use super::{called, lemma_called, makes, verdict};

verus! {

/// A range of places, upwards or downwards, with or without scores.
pub proof fn law_zrange_places(a: Seq<Seq<u8>>, env: &ParseEnv)
    requires
        called(a, "ZRANGE"@),
        a.len() >= 4,
        i64_of(a[2]) is Some,
        i64_of(a[3]) is Some,
    ensures
        a.len() == 4 ==>
            makes(
                a,
                env,
                CommandView::Zrange {
                    key: a[1],
                    opts: ZRangeOptsView {
                        start: i64_of(a[2])->0,
                        stop: i64_of(a[3])->0,
                        ..ZRangeOpts::plain()
                    },
                },
            ),
        a.len() == 5 && upper_word(a[4]) == "REV"@ ==>
            makes(
                a,
                env,
                CommandView::Zrange {
                    key: a[1],
                    opts: ZRangeOptsView {
                        rev: true,
                        start: i64_of(a[2])->0,
                        stop: i64_of(a[3])->0,
                        ..ZRangeOpts::plain()
                    },
                },
            ),
        a.len() == 5 && upper_word(a[4]) == "WITHSCORES"@ ==>
            makes(
                a,
                env,
                CommandView::Zrange {
                    key: a[1],
                    opts: ZRangeOptsView {
                        with_scores: true,
                        start: i64_of(a[2])->0,
                        stop: i64_of(a[3])->0,
                        ..ZRangeOpts::plain()
                    },
                },
            ),
        a.len() == 6 && upper_word(a[4]) == "REV"@ && upper_word(a[5]) == "WITHSCORES"@ ==>
            makes(
                a,
                env,
                CommandView::Zrange {
                    key: a[1],
                    opts: ZRangeOptsView {
                        rev: true,
                        with_scores: true,
                        start: i64_of(a[2])->0,
                        stop: i64_of(a[3])->0,
                        ..ZRangeOpts::plain()
                    },
                },
            ),
{
    reveal(verdict);
    lemma_called(a);
    assert(named_command_spec(
        upper_word(a[0]),
        unnamed(a),
        env,
    ) == zrange_spec(unnamed(a), env)) by {
        lemma_reach_zsets(upper_word(a[0]), unnamed(a), env);
        lemma_zsets_codes();
    }
    reveal(name_code);
    reveal_strlit("BYLEX");
    reveal_strlit("BYSCORE");
    reveal_strlit("LIMIT");
    reveal_strlit("REV");
    reveal_strlit("WITHSCORES");
    assert(name_code("BYLEX"@) == 7295117716820405);
    assert(name_code("BYSCORE"@) == 7295114899105507);
    assert(name_code("LIMIT"@) == 8387764107911705);
    assert(name_code("REV"@) == 9045630623880203);
    assert(name_code("WITHSCORES"@) == 9597225659733010);
    reveal_with_fuel(zrange_options, 4);
}

/// A range of scores; downwards, the greater bound comes first.
pub proof fn law_zrange_byscore(a: Seq<Seq<u8>>, env: &ParseEnv)
    requires
        called(a, "ZRANGE"@),
        a.len() >= 5,
        upper_word(a[4]) == "BYSCORE"@,
        score_bound(env, a[2]) is Ok,
        score_bound(env, a[3]) is Ok,
    ensures
        a.len() == 5 ==>
            makes(
                a,
                env,
                CommandView::Zrange {
                    key: a[1],
                    opts: ZRangeOptsView {
                        by_score: true,
                        min_score: (score_bound(env, a[2])->Ok_0).0,
                        min_inc: (score_bound(env, a[2])->Ok_0).1,
                        max_score: (score_bound(env, a[3])->Ok_0).0,
                        max_inc: (score_bound(env, a[3])->Ok_0).1,
                        ..ZRangeOpts::plain()
                    },
                },
            ),
        a.len() == 6 && upper_word(a[5]) == "REV"@ ==>
            makes(
                a,
                env,
                CommandView::Zrange {
                    key: a[1],
                    opts: ZRangeOptsView {
                        by_score: true,
                        rev: true,
                        min_score: (score_bound(env, a[3])->Ok_0).0,
                        min_inc: (score_bound(env, a[3])->Ok_0).1,
                        max_score: (score_bound(env, a[2])->Ok_0).0,
                        max_inc: (score_bound(env, a[2])->Ok_0).1,
                        ..ZRangeOpts::plain()
                    },
                },
            ),
{
    reveal(verdict);
    lemma_called(a);
    assert(named_command_spec(
        upper_word(a[0]),
        unnamed(a),
        env,
    ) == zrange_spec(unnamed(a), env)) by {
        lemma_reach_zsets(upper_word(a[0]), unnamed(a), env);
        lemma_zsets_codes();
    }
    reveal(name_code);
    reveal_strlit("BYLEX");
    reveal_strlit("BYSCORE");
    reveal_strlit("LIMIT");
    reveal_strlit("REV");
    reveal_strlit("WITHSCORES");
    assert(name_code("BYLEX"@) == 7295117716820405);
    assert(name_code("BYSCORE"@) == 7295114899105507);
    assert(name_code("LIMIT"@) == 8387764107911705);
    assert(name_code("REV"@) == 9045630623880203);
    assert(name_code("WITHSCORES"@) == 9597225659733010);
    reveal_with_fuel(zrange_options, 4);
}

/// A page of a range of scores.
pub proof fn law_zrange_byscore_limit(a: Seq<Seq<u8>>, env: &ParseEnv)
    requires
        called(a, "ZRANGE"@),
        a.len() == 8,
        upper_word(a[4]) == "BYSCORE"@,
        upper_word(a[5]) == "LIMIT"@,
        i64_of(a[6]) is Some,
        i64_of(a[7]) is Some,
        i64_of(a[6])->0 >= 0,
        score_bound(env, a[2]) is Ok,
        score_bound(env, a[3]) is Ok,
    ensures
        i64_of(a[7])->0 >= 0 ==>
            makes(
                a,
                env,
                CommandView::Zrange {
                    key: a[1],
                    opts: ZRangeOptsView {
                        by_score: true,
                        offset: (i64_of(a[6])->0) as usize,
                        count: Some((i64_of(a[7])->0) as usize),
                        min_score: (score_bound(env, a[2])->Ok_0).0,
                        min_inc: (score_bound(env, a[2])->Ok_0).1,
                        max_score: (score_bound(env, a[3])->Ok_0).0,
                        max_inc: (score_bound(env, a[3])->Ok_0).1,
                        ..ZRangeOpts::plain()
                    },
                },
            ),
        i64_of(a[7])->0 < 0 ==>
            makes(
                a,
                env,
                CommandView::Zrange {
                    key: a[1],
                    opts: ZRangeOptsView {
                        by_score: true,
                        offset: (i64_of(a[6])->0) as usize,
                        count: None,
                        min_score: (score_bound(env, a[2])->Ok_0).0,
                        min_inc: (score_bound(env, a[2])->Ok_0).1,
                        max_score: (score_bound(env, a[3])->Ok_0).0,
                        max_inc: (score_bound(env, a[3])->Ok_0).1,
                        ..ZRangeOpts::plain()
                    },
                },
            ),
{
    reveal(verdict);
    lemma_called(a);
    assert(named_command_spec(
        upper_word(a[0]),
        unnamed(a),
        env,
    ) == zrange_spec(unnamed(a), env)) by {
        lemma_reach_zsets(upper_word(a[0]), unnamed(a), env);
        lemma_zsets_codes();
    }
    reveal(name_code);
    reveal_strlit("BYLEX");
    reveal_strlit("BYSCORE");
    reveal_strlit("LIMIT");
    reveal_strlit("REV");
    reveal_strlit("WITHSCORES");
    assert(name_code("BYLEX"@) == 7295117716820405);
    assert(name_code("BYSCORE"@) == 7295114899105507);
    assert(name_code("LIMIT"@) == 8387764107911705);
    assert(name_code("REV"@) == 9045630623880203);
    assert(name_code("WITHSCORES"@) == 9597225659733010);
    reveal_with_fuel(zrange_options, 4);
}

/// A range of names.
pub proof fn law_zrange_bylex(a: Seq<Seq<u8>>, env: &ParseEnv)
    requires
        called(a, "ZRANGE"@),
        a.len() >= 5,
        upper_word(a[4]) == "BYLEX"@,
        lex_bound_spec(a[2]) is Ok,
        lex_bound_spec(a[3]) is Ok,
    ensures
        a.len() == 5 ==>
            makes(
                a,
                env,
                CommandView::Zrange {
                    key: a[1],
                    opts: ZRangeOptsView {
                        by_lex: true,
                        min_lex: lex_bound_spec(a[2])->Ok_0,
                        max_lex: lex_bound_spec(a[3])->Ok_0,
                        ..ZRangeOpts::plain()
                    },
                },
            ),
        a.len() == 6 && upper_word(a[5]) == "REV"@ ==>
            makes(
                a,
                env,
                CommandView::Zrange {
                    key: a[1],
                    opts: ZRangeOptsView {
                        by_lex: true,
                        rev: true,
                        min_lex: lex_bound_spec(a[3])->Ok_0,
                        max_lex: lex_bound_spec(a[2])->Ok_0,
                        ..ZRangeOpts::plain()
                    },
                },
            ),
{
    reveal(verdict);
    lemma_called(a);
    assert(named_command_spec(
        upper_word(a[0]),
        unnamed(a),
        env,
    ) == zrange_spec(unnamed(a), env)) by {
        lemma_reach_zsets(upper_word(a[0]), unnamed(a), env);
        lemma_zsets_codes();
    }
    reveal(name_code);
    reveal_strlit("BYLEX");
    reveal_strlit("BYSCORE");
    reveal_strlit("LIMIT");
    reveal_strlit("REV");
    reveal_strlit("WITHSCORES");
    assert(name_code("BYLEX"@) == 7295117716820405);
    assert(name_code("BYSCORE"@) == 7295114899105507);
    assert(name_code("LIMIT"@) == 8387764107911705);
    assert(name_code("REV"@) == 9045630623880203);
    assert(name_code("WITHSCORES"@) == 9597225659733010);
    reveal_with_fuel(zrange_options, 4);
}

/// To store a range of places.
pub proof fn law_zrangestore_places(a: Seq<Seq<u8>>, env: &ParseEnv)
    requires
        called(a, "ZRANGESTORE"@),
        a.len() >= 5,
        i64_of(a[3]) is Some,
        i64_of(a[4]) is Some,
    ensures
        a.len() == 5 ==>
            makes(
                a,
                env,
                CommandView::Zrangestore {
                    dst: a[1],
                    src: a[2],
                    opts: ZRangeOptsView {
                        start: i64_of(a[3])->0,
                        stop: i64_of(a[4])->0,
                        ..ZRangeOpts::plain()
                    },
                },
            ),
        a.len() == 6 && upper_word(a[5]) == "REV"@ ==>
            makes(
                a,
                env,
                CommandView::Zrangestore {
                    dst: a[1],
                    src: a[2],
                    opts: ZRangeOptsView {
                        rev: true,
                        start: i64_of(a[3])->0,
                        stop: i64_of(a[4])->0,
                        ..ZRangeOpts::plain()
                    },
                },
            ),
{
    reveal(verdict);
    lemma_called(a);
    assert(named_command_spec(
        upper_word(a[0]),
        unnamed(a),
        env,
    ) == zrangestore_spec(unnamed(a), env)) by {
        lemma_reach_zsets(upper_word(a[0]), unnamed(a), env);
        lemma_zsets_codes();
    }
    reveal(name_code);
    reveal_strlit("BYLEX");
    reveal_strlit("BYSCORE");
    reveal_strlit("LIMIT");
    reveal_strlit("REV");
    reveal_strlit("WITHSCORES");
    assert(name_code("BYLEX"@) == 7295117716820405);
    assert(name_code("BYSCORE"@) == 7295114899105507);
    assert(name_code("LIMIT"@) == 8387764107911705);
    assert(name_code("REV"@) == 9045630623880203);
    assert(name_code("WITHSCORES"@) == 9597225659733010);
    reveal_with_fuel(zrangestore_options, 4);
}

/// To store a range of scores.
pub proof fn law_zrangestore_byscore(a: Seq<Seq<u8>>, env: &ParseEnv)
    requires
        called(a, "ZRANGESTORE"@),
        a.len() >= 6,
        upper_word(a[5]) == "BYSCORE"@,
        score_bound(env, a[3]) is Ok,
        score_bound(env, a[4]) is Ok,
    ensures
        a.len() == 6 ==>
            makes(
                a,
                env,
                CommandView::Zrangestore {
                    dst: a[1],
                    src: a[2],
                    opts: ZRangeOptsView {
                        by_score: true,
                        min_score: (score_bound(env, a[3])->Ok_0).0,
                        min_inc: (score_bound(env, a[3])->Ok_0).1,
                        max_score: (score_bound(env, a[4])->Ok_0).0,
                        max_inc: (score_bound(env, a[4])->Ok_0).1,
                        ..ZRangeOpts::plain()
                    },
                },
            ),
        a.len() == 7 && upper_word(a[6]) == "REV"@ ==>
            makes(
                a,
                env,
                CommandView::Zrangestore {
                    dst: a[1],
                    src: a[2],
                    opts: ZRangeOptsView {
                        by_score: true,
                        rev: true,
                        min_score: (score_bound(env, a[4])->Ok_0).0,
                        min_inc: (score_bound(env, a[4])->Ok_0).1,
                        max_score: (score_bound(env, a[3])->Ok_0).0,
                        max_inc: (score_bound(env, a[3])->Ok_0).1,
                        ..ZRangeOpts::plain()
                    },
                },
            ),
{
    reveal(verdict);
    lemma_called(a);
    assert(named_command_spec(
        upper_word(a[0]),
        unnamed(a),
        env,
    ) == zrangestore_spec(unnamed(a), env)) by {
        lemma_reach_zsets(upper_word(a[0]), unnamed(a), env);
        lemma_zsets_codes();
    }
    reveal(name_code);
    reveal_strlit("BYLEX");
    reveal_strlit("BYSCORE");
    reveal_strlit("LIMIT");
    reveal_strlit("REV");
    reveal_strlit("WITHSCORES");
    assert(name_code("BYLEX"@) == 7295117716820405);
    assert(name_code("BYSCORE"@) == 7295114899105507);
    assert(name_code("LIMIT"@) == 8387764107911705);
    assert(name_code("REV"@) == 9045630623880203);
    assert(name_code("WITHSCORES"@) == 9597225659733010);
    reveal_with_fuel(zrangestore_options, 4);
}

/// What `ZUNIONSTORE` combines, and how.
pub proof fn law_zunionstore_plain(a: Seq<Seq<u8>>, env: &ParseEnv)
    requires
        called(a, "ZUNIONSTORE"@),
        i64_of(a[2]) is Some,
        i64_of(a[2])->0 > 0,
        ((i64_of(a[2])->0) as usize) < a.len(),
        a.len() >= ((i64_of(a[2])->0) as usize) + 3,
        a.len() >= 4,
    ensures
        a.len() == ((i64_of(a[2])->0) as usize) + 3 ==>
            makes(
                a,
                env,
                CommandView::Zunionstore {
                    destination: a[1],
                    keys: a.subrange(3, ((i64_of(a[2])->0) as usize) + 3),
                    weights: Seq::empty(),
                    aggregate: Aggregate::Sum,
                },
            ),
        a.len() == ((i64_of(a[2])->0) as usize) + 3 + 2
            && upper_word(a[((i64_of(a[2])->0) as usize) + 3]) == "AGGREGATE"@
            && upper_word(a[((i64_of(a[2])->0) as usize) + 3 + 1]) == "SUM"@ ==>
            makes(
                a,
                env,
                CommandView::Zunionstore {
                    destination: a[1],
                    keys: a.subrange(3, ((i64_of(a[2])->0) as usize) + 3),
                    weights: Seq::empty(),
                    aggregate: Aggregate::Sum,
                },
            ),
        a.len() == ((i64_of(a[2])->0) as usize) + 3 + 2
            && upper_word(a[((i64_of(a[2])->0) as usize) + 3]) == "AGGREGATE"@
            && upper_word(a[((i64_of(a[2])->0) as usize) + 3 + 1]) == "MIN"@ ==>
            makes(
                a,
                env,
                CommandView::Zunionstore {
                    destination: a[1],
                    keys: a.subrange(3, ((i64_of(a[2])->0) as usize) + 3),
                    weights: Seq::empty(),
                    aggregate: Aggregate::Min,
                },
            ),
        a.len() == ((i64_of(a[2])->0) as usize) + 3 + 2
            && upper_word(a[((i64_of(a[2])->0) as usize) + 3]) == "AGGREGATE"@
            && upper_word(a[((i64_of(a[2])->0) as usize) + 3 + 1]) == "MAX"@ ==>
            makes(
                a,
                env,
                CommandView::Zunionstore {
                    destination: a[1],
                    keys: a.subrange(3, ((i64_of(a[2])->0) as usize) + 3),
                    weights: Seq::empty(),
                    aggregate: Aggregate::Max,
                },
            ),
        a.len() == ((i64_of(a[2])->0) as usize) + 3 + 2
            && upper_word(a[((i64_of(a[2])->0) as usize) + 3]) == "AGGREGATE"@
            && upper_word(a[((i64_of(a[2])->0) as usize) + 3 + 1]) == "COUNT"@ ==>
            makes(
                a,
                env,
                CommandView::Zunionstore {
                    destination: a[1],
                    keys: a.subrange(3, ((i64_of(a[2])->0) as usize) + 3),
                    weights: Seq::empty(),
                    aggregate: Aggregate::Count,
                },
            ),
{
    reveal(verdict);
    lemma_called(a);
    assert(named_command_spec(
        upper_word(a[0]),
        unnamed(a),
        env,
    ) == zunionstore_spec(unnamed(a), env)) by {
        lemma_reach_zsets(upper_word(a[0]), unnamed(a), env);
        lemma_zsets_codes();
    }
    reveal(name_code);
    reveal_strlit("AGGREGATE");
    reveal_strlit("COUNT");
    reveal_strlit("MAX");
    reveal_strlit("MIN");
    reveal_strlit("SUM");
    reveal_strlit("WEIGHTS");
    reveal_strlit("WITHSCORES");
    assert(name_code("AGGREGATE"@) == 7177457888979309);
    assert(name_code("COUNT"@) == 7400789012027705);
    assert(name_code("MAX"@) == 8494156822970903);
    assert(name_code("MIN"@) == 8497592797012503);
    assert(name_code("SUM"@) == 9162453734741103);
    assert(name_code("WEIGHTS"@) == 9595506106887207);
    assert(name_code("WITHSCORES"@) == 9597225659733010);
    reveal_with_fuel(combine_options, 3);
    let at = ((i64_of(a[2])->0) as usize) + 3;
    assert(unnamed(a).subrange(3, at) =~= a.subrange(3, at));
}

/// What `ZINTERSTORE` combines, and how.
pub proof fn law_zinterstore_plain(a: Seq<Seq<u8>>, env: &ParseEnv)
    requires
        called(a, "ZINTERSTORE"@),
        i64_of(a[2]) is Some,
        i64_of(a[2])->0 > 0,
        ((i64_of(a[2])->0) as usize) < a.len(),
        a.len() >= ((i64_of(a[2])->0) as usize) + 3,
        a.len() >= 4,
    ensures
        a.len() == ((i64_of(a[2])->0) as usize) + 3 ==>
            makes(
                a,
                env,
                CommandView::Zinterstore {
                    destination: a[1],
                    keys: a.subrange(3, ((i64_of(a[2])->0) as usize) + 3),
                    weights: Seq::empty(),
                    aggregate: Aggregate::Sum,
                },
            ),
        a.len() == ((i64_of(a[2])->0) as usize) + 3 + 2
            && upper_word(a[((i64_of(a[2])->0) as usize) + 3]) == "AGGREGATE"@
            && upper_word(a[((i64_of(a[2])->0) as usize) + 3 + 1]) == "SUM"@ ==>
            makes(
                a,
                env,
                CommandView::Zinterstore {
                    destination: a[1],
                    keys: a.subrange(3, ((i64_of(a[2])->0) as usize) + 3),
                    weights: Seq::empty(),
                    aggregate: Aggregate::Sum,
                },
            ),
        a.len() == ((i64_of(a[2])->0) as usize) + 3 + 2
            && upper_word(a[((i64_of(a[2])->0) as usize) + 3]) == "AGGREGATE"@
            && upper_word(a[((i64_of(a[2])->0) as usize) + 3 + 1]) == "MIN"@ ==>
            makes(
                a,
                env,
                CommandView::Zinterstore {
                    destination: a[1],
                    keys: a.subrange(3, ((i64_of(a[2])->0) as usize) + 3),
                    weights: Seq::empty(),
                    aggregate: Aggregate::Min,
                },
            ),
        a.len() == ((i64_of(a[2])->0) as usize) + 3 + 2
            && upper_word(a[((i64_of(a[2])->0) as usize) + 3]) == "AGGREGATE"@
            && upper_word(a[((i64_of(a[2])->0) as usize) + 3 + 1]) == "MAX"@ ==>
            makes(
                a,
                env,
                CommandView::Zinterstore {
                    destination: a[1],
                    keys: a.subrange(3, ((i64_of(a[2])->0) as usize) + 3),
                    weights: Seq::empty(),
                    aggregate: Aggregate::Max,
                },
            ),
        a.len() == ((i64_of(a[2])->0) as usize) + 3 + 2
            && upper_word(a[((i64_of(a[2])->0) as usize) + 3]) == "AGGREGATE"@
            && upper_word(a[((i64_of(a[2])->0) as usize) + 3 + 1]) == "COUNT"@ ==>
            makes(
                a,
                env,
                CommandView::Zinterstore {
                    destination: a[1],
                    keys: a.subrange(3, ((i64_of(a[2])->0) as usize) + 3),
                    weights: Seq::empty(),
                    aggregate: Aggregate::Count,
                },
            ),
{
    reveal(verdict);
    lemma_called(a);
    assert(named_command_spec(
        upper_word(a[0]),
        unnamed(a),
        env,
    ) == zinterstore_spec(unnamed(a), env)) by {
        lemma_reach_zsets(upper_word(a[0]), unnamed(a), env);
        lemma_zsets_codes();
    }
    reveal(name_code);
    reveal_strlit("AGGREGATE");
    reveal_strlit("COUNT");
    reveal_strlit("MAX");
    reveal_strlit("MIN");
    reveal_strlit("SUM");
    reveal_strlit("WEIGHTS");
    reveal_strlit("WITHSCORES");
    assert(name_code("AGGREGATE"@) == 7177457888979309);
    assert(name_code("COUNT"@) == 7400789012027705);
    assert(name_code("MAX"@) == 8494156822970903);
    assert(name_code("MIN"@) == 8497592797012503);
    assert(name_code("SUM"@) == 9162453734741103);
    assert(name_code("WEIGHTS"@) == 9595506106887207);
    assert(name_code("WITHSCORES"@) == 9597225659733010);
    reveal_with_fuel(combine_options, 3);
    let at = ((i64_of(a[2])->0) as usize) + 3;
    assert(unnamed(a).subrange(3, at) =~= a.subrange(3, at));
}

/// What `ZUNION` combines, and how.
pub proof fn law_zunion_plain(a: Seq<Seq<u8>>, env: &ParseEnv)
    requires
        called(a, "ZUNION"@),
        i64_of(a[1]) is Some,
        i64_of(a[1])->0 > 0,
        ((i64_of(a[1])->0) as usize) < a.len(),
        a.len() >= ((i64_of(a[1])->0) as usize) + 2,
        a.len() >= 3,
    ensures
        a.len() == ((i64_of(a[1])->0) as usize) + 2 ==>
            makes(
                a,
                env,
                CommandView::Zunion {
                    keys: a.subrange(2, ((i64_of(a[1])->0) as usize) + 2),
                    weights: Seq::empty(),
                    aggregate: Aggregate::Sum,
                    with_scores: false,
                },
            ),
        a.len() == ((i64_of(a[1])->0) as usize) + 2 + 2
            && upper_word(a[((i64_of(a[1])->0) as usize) + 2]) == "AGGREGATE"@
            && upper_word(a[((i64_of(a[1])->0) as usize) + 2 + 1]) == "SUM"@ ==>
            makes(
                a,
                env,
                CommandView::Zunion {
                    keys: a.subrange(2, ((i64_of(a[1])->0) as usize) + 2),
                    weights: Seq::empty(),
                    aggregate: Aggregate::Sum,
                    with_scores: false,
                },
            ),
        a.len() == ((i64_of(a[1])->0) as usize) + 2 + 2
            && upper_word(a[((i64_of(a[1])->0) as usize) + 2]) == "AGGREGATE"@
            && upper_word(a[((i64_of(a[1])->0) as usize) + 2 + 1]) == "MIN"@ ==>
            makes(
                a,
                env,
                CommandView::Zunion {
                    keys: a.subrange(2, ((i64_of(a[1])->0) as usize) + 2),
                    weights: Seq::empty(),
                    aggregate: Aggregate::Min,
                    with_scores: false,
                },
            ),
        a.len() == ((i64_of(a[1])->0) as usize) + 2 + 2
            && upper_word(a[((i64_of(a[1])->0) as usize) + 2]) == "AGGREGATE"@
            && upper_word(a[((i64_of(a[1])->0) as usize) + 2 + 1]) == "MAX"@ ==>
            makes(
                a,
                env,
                CommandView::Zunion {
                    keys: a.subrange(2, ((i64_of(a[1])->0) as usize) + 2),
                    weights: Seq::empty(),
                    aggregate: Aggregate::Max,
                    with_scores: false,
                },
            ),
        a.len() == ((i64_of(a[1])->0) as usize) + 2 + 2
            && upper_word(a[((i64_of(a[1])->0) as usize) + 2]) == "AGGREGATE"@
            && upper_word(a[((i64_of(a[1])->0) as usize) + 2 + 1]) == "COUNT"@ ==>
            makes(
                a,
                env,
                CommandView::Zunion {
                    keys: a.subrange(2, ((i64_of(a[1])->0) as usize) + 2),
                    weights: Seq::empty(),
                    aggregate: Aggregate::Count,
                    with_scores: false,
                },
            ),
        a.len() == ((i64_of(a[1])->0) as usize) + 2 + 1
            && upper_word(a[((i64_of(a[1])->0) as usize) + 2]) == "WITHSCORES"@ ==>
            makes(
                a,
                env,
                CommandView::Zunion {
                    keys: a.subrange(2, ((i64_of(a[1])->0) as usize) + 2),
                    weights: Seq::empty(),
                    aggregate: Aggregate::Sum,
                    with_scores: true,
                },
            ),
{
    reveal(verdict);
    lemma_called(a);
    assert(named_command_spec(
        upper_word(a[0]),
        unnamed(a),
        env,
    ) == zunion_spec(unnamed(a), env)) by {
        lemma_reach_zsets(upper_word(a[0]), unnamed(a), env);
        lemma_zsets_codes();
    }
    reveal(name_code);
    reveal_strlit("AGGREGATE");
    reveal_strlit("COUNT");
    reveal_strlit("MAX");
    reveal_strlit("MIN");
    reveal_strlit("SUM");
    reveal_strlit("WEIGHTS");
    reveal_strlit("WITHSCORES");
    assert(name_code("AGGREGATE"@) == 7177457888979309);
    assert(name_code("COUNT"@) == 7400789012027705);
    assert(name_code("MAX"@) == 8494156822970903);
    assert(name_code("MIN"@) == 8497592797012503);
    assert(name_code("SUM"@) == 9162453734741103);
    assert(name_code("WEIGHTS"@) == 9595506106887207);
    assert(name_code("WITHSCORES"@) == 9597225659733010);
    reveal_with_fuel(combine_options, 3);
    let at = ((i64_of(a[1])->0) as usize) + 2;
    assert(unnamed(a).subrange(2, at) =~= a.subrange(2, at));
}

/// What `ZINTER` combines, and how.
pub proof fn law_zinter_plain(a: Seq<Seq<u8>>, env: &ParseEnv)
    requires
        called(a, "ZINTER"@),
        i64_of(a[1]) is Some,
        i64_of(a[1])->0 > 0,
        ((i64_of(a[1])->0) as usize) < a.len(),
        a.len() >= ((i64_of(a[1])->0) as usize) + 2,
        a.len() >= 3,
    ensures
        a.len() == ((i64_of(a[1])->0) as usize) + 2 ==>
            makes(
                a,
                env,
                CommandView::Zinter {
                    keys: a.subrange(2, ((i64_of(a[1])->0) as usize) + 2),
                    weights: Seq::empty(),
                    aggregate: Aggregate::Sum,
                    with_scores: false,
                },
            ),
        a.len() == ((i64_of(a[1])->0) as usize) + 2 + 2
            && upper_word(a[((i64_of(a[1])->0) as usize) + 2]) == "AGGREGATE"@
            && upper_word(a[((i64_of(a[1])->0) as usize) + 2 + 1]) == "SUM"@ ==>
            makes(
                a,
                env,
                CommandView::Zinter {
                    keys: a.subrange(2, ((i64_of(a[1])->0) as usize) + 2),
                    weights: Seq::empty(),
                    aggregate: Aggregate::Sum,
                    with_scores: false,
                },
            ),
        a.len() == ((i64_of(a[1])->0) as usize) + 2 + 2
            && upper_word(a[((i64_of(a[1])->0) as usize) + 2]) == "AGGREGATE"@
            && upper_word(a[((i64_of(a[1])->0) as usize) + 2 + 1]) == "MIN"@ ==>
            makes(
                a,
                env,
                CommandView::Zinter {
                    keys: a.subrange(2, ((i64_of(a[1])->0) as usize) + 2),
                    weights: Seq::empty(),
                    aggregate: Aggregate::Min,
                    with_scores: false,
                },
            ),
        a.len() == ((i64_of(a[1])->0) as usize) + 2 + 2
            && upper_word(a[((i64_of(a[1])->0) as usize) + 2]) == "AGGREGATE"@
            && upper_word(a[((i64_of(a[1])->0) as usize) + 2 + 1]) == "MAX"@ ==>
            makes(
                a,
                env,
                CommandView::Zinter {
                    keys: a.subrange(2, ((i64_of(a[1])->0) as usize) + 2),
                    weights: Seq::empty(),
                    aggregate: Aggregate::Max,
                    with_scores: false,
                },
            ),
        a.len() == ((i64_of(a[1])->0) as usize) + 2 + 2
            && upper_word(a[((i64_of(a[1])->0) as usize) + 2]) == "AGGREGATE"@
            && upper_word(a[((i64_of(a[1])->0) as usize) + 2 + 1]) == "COUNT"@ ==>
            makes(
                a,
                env,
                CommandView::Zinter {
                    keys: a.subrange(2, ((i64_of(a[1])->0) as usize) + 2),
                    weights: Seq::empty(),
                    aggregate: Aggregate::Count,
                    with_scores: false,
                },
            ),
        a.len() == ((i64_of(a[1])->0) as usize) + 2 + 1
            && upper_word(a[((i64_of(a[1])->0) as usize) + 2]) == "WITHSCORES"@ ==>
            makes(
                a,
                env,
                CommandView::Zinter {
                    keys: a.subrange(2, ((i64_of(a[1])->0) as usize) + 2),
                    weights: Seq::empty(),
                    aggregate: Aggregate::Sum,
                    with_scores: true,
                },
            ),
{
    reveal(verdict);
    lemma_called(a);
    assert(named_command_spec(
        upper_word(a[0]),
        unnamed(a),
        env,
    ) == zinter_spec(unnamed(a), env)) by {
        lemma_reach_zsets(upper_word(a[0]), unnamed(a), env);
        lemma_zsets_codes();
    }
    reveal(name_code);
    reveal_strlit("AGGREGATE");
    reveal_strlit("COUNT");
    reveal_strlit("MAX");
    reveal_strlit("MIN");
    reveal_strlit("SUM");
    reveal_strlit("WEIGHTS");
    reveal_strlit("WITHSCORES");
    assert(name_code("AGGREGATE"@) == 7177457888979309);
    assert(name_code("COUNT"@) == 7400789012027705);
    assert(name_code("MAX"@) == 8494156822970903);
    assert(name_code("MIN"@) == 8497592797012503);
    assert(name_code("SUM"@) == 9162453734741103);
    assert(name_code("WEIGHTS"@) == 9595506106887207);
    assert(name_code("WITHSCORES"@) == 9597225659733010);
    reveal_with_fuel(combine_options, 3);
    let at = ((i64_of(a[1])->0) as usize) + 2;
    assert(unnamed(a).subrange(2, at) =~= a.subrange(2, at));
}

} // verus!
