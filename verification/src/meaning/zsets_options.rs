//! What the options of the commands on sorted sets add.
use vstd::prelude::*;

use crate::build::named_command_spec;
use crate::build::naming::{lemma_reach_zsets, lemma_zsets_codes, name_code};
use crate::build::walks::walk_options;
use crate::build::zsets::{
    score_range_options, zintercard_options, zintercard_spec, zrangebyscore_spec,
    zrevrangebyscore_spec, zscan_spec,
};
use crate::command::CommandView;
use crate::numbers::{i64_of, usize_of};
use crate::operands::{ZRangeOpts, ZRangeOptsView};
use crate::readings::{ParseEnv, score_bound};
use crate::resp::unnamed;
use crate::text::upper_word;
use super::{called, lemma_called, lemma_tail, makes, refuses, verdict};
use super::hashes_options::lemma_walk_options_goes_on;

verus! {

/// Without options.
pub proof fn law_zscan_options_bare(a: Seq<Seq<u8>>, env: &ParseEnv)
    requires
        called(a, "ZSCAN"@),
        a.len() == 3,
        usize_of(a[2]) is Some,
    ensures
        makes(
            a,
            env,
            CommandView::Zscan { key: a[1], cursor: usize_of(a[2])->0, pattern: None, count: None },
        ),
{
    reveal(verdict);
    lemma_called(a);
    assert(named_command_spec(upper_word(a[0]), unnamed(a), env) == zscan_spec(unnamed(a))) by {
        lemma_reach_zsets(upper_word(a[0]), unnamed(a), env);
        lemma_zsets_codes();
    }
}

/// An option of `ZSCAN` adds its own to what the others give, in whatever order they stand.
pub proof fn law_zscan_options(
    a: Seq<Seq<u8>>,
    env: &ParseEnv,
    pattern: Option<Seq<u8>>,
    count: Option<usize>,
    w: Seq<u8>,
    x: Seq<u8>,
)
    requires
        called(a, "ZSCAN"@),
        makes(a, env, CommandView::Zscan { key: a[1], cursor: usize_of(a[2])->0, pattern, count }),
    ensures
        upper_word(w) == "MATCH"@ ==> refuses(a.push(w), env, "syntax error"@),
        upper_word(w) == "MATCH"@ ==>
            makes(
                a.push(w).push(x),
                env,
                CommandView::Zscan {
                    key: a[1],
                    cursor: usize_of(a[2])->0,
                    pattern: Some(x),
                    count,
                },
            ),
        upper_word(w) == "COUNT"@ ==> refuses(a.push(w), env, "syntax error"@),
        upper_word(w) == "COUNT"@ && usize_of(x) is None ==>
            refuses(a.push(w).push(x), env, "value is not an integer or out of range"@),
        upper_word(w) == "COUNT"@ && usize_of(x) is Some ==>
            makes(
                a.push(w).push(x),
                env,
                CommandView::Zscan {
                    key: a[1],
                    cursor: usize_of(a[2])->0,
                    pattern,
                    count: Some(usize_of(x)->0),
                },
            ),
        upper_word(w) != "MATCH"@ && upper_word(w) != "COUNT"@ ==>
            refuses(a.push(w), env, "syntax error"@),
{
    reveal(name_code);
    reveal_strlit("COUNT");
    reveal_strlit("MATCH");
    assert(name_code("COUNT"@) == 7400789012027705);
    assert(name_code("MATCH"@) == 8494269230370005);
    reveal_with_fuel(walk_options, 2);
    assert(a.push(w) =~= a + seq![w]);
    lemma_zscan_options_step(a, env, pattern, count, seq![w]);
    lemma_tail(a, seq![w]);
    assert(a.push(w).push(x) =~= a + seq![w, x]);
    lemma_zscan_options_step(a, env, pattern, count, seq![w, x]);
    lemma_tail(a, seq![w, x]);
}

/// What words behind such words make.
#[verifier::spinoff_prover]
#[verifier::rlimit(40)]
proof fn lemma_zscan_options_step(
    a: Seq<Seq<u8>>,
    env: &ParseEnv,
    pattern: Option<Seq<u8>>,
    count: Option<usize>,
    more: Seq<Seq<u8>>,
)
    requires
        called(a, "ZSCAN"@),
        makes(a, env, CommandView::Zscan { key: a[1], cursor: usize_of(a[2])->0, pattern, count }),
    ensures
        verdict(a + more, env) == match walk_options(
            (unnamed(a) + more),
            pattern,
            count,
            a.len() as int,
        ) {
            Err(e) => Err(e),
            Ok(r) => Ok(Some(CommandView::Zscan {
                key: a[1],
                cursor: usize_of(a[2])->0,
                pattern: r.0,
                count: r.1,
            })),
        },
{
    let b = a + more;
    reveal(verdict);
    lemma_called(a);
    lemma_called(b);
    assert(named_command_spec(upper_word(a[0]), unnamed(a), env) == zscan_spec(unnamed(a))) by {
        lemma_reach_zsets(upper_word(a[0]), unnamed(a), env);
        lemma_zsets_codes();
    }
    assert(named_command_spec(upper_word(b[0]), unnamed(b), env) == zscan_spec(unnamed(b))) by {
        lemma_reach_zsets(upper_word(b[0]), unnamed(b), env);
        lemma_zsets_codes();
    }
    assert(unnamed(b) =~= unnamed(a) + more);
    lemma_walk_options_goes_on(unnamed(a), None, None, 3, more);
}

/// Without options.
pub proof fn law_zintercard_options_bare(a: Seq<Seq<u8>>, env: &ParseEnv)
    requires
        called(a, "ZINTERCARD"@),
        i64_of(a[1]) is Some,
        i64_of(a[1])->0 > 0,
        a.len() == (i64_of(a[1])->0) as usize + 2,
        a.len() >= 3,
    ensures
        makes(
            a,
            env,
            CommandView::Zintercard {
                keys: a.subrange(2, (i64_of(a[1])->0) as usize + 2),
                limit: 0,
            },
        ),
{
    reveal(verdict);
    lemma_called(a);
    assert(named_command_spec(
        upper_word(a[0]),
        unnamed(a),
        env,
    ) == zintercard_spec(unnamed(a))) by {
        lemma_reach_zsets(upper_word(a[0]), unnamed(a), env);
        lemma_zsets_codes();
    }
}

/// An option of `ZINTERCARD` adds its own to what the others give, in whatever order they stand.
pub proof fn law_zintercard_options(
    a: Seq<Seq<u8>>,
    env: &ParseEnv,
    limit: usize,
    w: Seq<u8>,
    x: Seq<u8>,
)
    requires
        called(a, "ZINTERCARD"@),
        makes(
            a,
            env,
            CommandView::Zintercard { keys: a.subrange(2, (i64_of(a[1])->0) as usize + 2), limit },
        ),
    ensures
        upper_word(w) == "LIMIT"@ ==> refuses(a.push(w), env, "syntax error"@),
        upper_word(w) == "LIMIT"@ && i64_of(x) is None ==>
            refuses(a.push(w).push(x), env, "LIMIT can't be negative"@),
        upper_word(w) == "LIMIT"@ && i64_of(x) is Some && i64_of(x)->0 < 0 ==>
            refuses(a.push(w).push(x), env, "LIMIT can't be negative"@),
        upper_word(w) == "LIMIT"@ && i64_of(x) is Some && i64_of(x)->0 >= 0 ==>
            makes(
                a.push(w).push(x),
                env,
                CommandView::Zintercard {
                    keys: a.subrange(2, (i64_of(a[1])->0) as usize + 2),
                    limit: (i64_of(x)->0 as usize),
                },
            ),
        upper_word(w) != "LIMIT"@ ==> refuses(a.push(w), env, "syntax error"@),
{
    reveal_with_fuel(zintercard_options, 2);
    assert(a.push(w) =~= a + seq![w]);
    lemma_zintercard_options_step(a, env, limit, seq![w]);
    lemma_tail(a, seq![w]);
    assert(a.push(w).push(x) =~= a + seq![w, x]);
    lemma_zintercard_options_step(a, env, limit, seq![w, x]);
    lemma_tail(a, seq![w, x]);
}

/// What words behind such words make.
#[verifier::spinoff_prover]
#[verifier::rlimit(40)]
proof fn lemma_zintercard_options_step(
    a: Seq<Seq<u8>>,
    env: &ParseEnv,
    limit: usize,
    more: Seq<Seq<u8>>,
)
    requires
        called(a, "ZINTERCARD"@),
        makes(
            a,
            env,
            CommandView::Zintercard { keys: a.subrange(2, (i64_of(a[1])->0) as usize + 2), limit },
        ),
    ensures
        verdict(a + more, env) == match zintercard_options(
            (unnamed(a) + more),
            limit,
            a.len() as int,
        ) {
            Err(e) => Err(e),
            Ok(r) => Ok(Some(CommandView::Zintercard {
                keys: a.subrange(2, (i64_of(a[1])->0) as usize + 2),
                limit: r,
            })),
        },
{
    let b = a + more;
    reveal(verdict);
    lemma_called(a);
    lemma_called(b);
    assert(named_command_spec(
        upper_word(a[0]),
        unnamed(a),
        env,
    ) == zintercard_spec(unnamed(a))) by {
        lemma_reach_zsets(upper_word(a[0]), unnamed(a), env);
        lemma_zsets_codes();
    }
    assert(named_command_spec(
        upper_word(b[0]),
        unnamed(b),
        env,
    ) == zintercard_spec(unnamed(b))) by {
        lemma_reach_zsets(upper_word(b[0]), unnamed(b), env);
        lemma_zsets_codes();
    }
    assert(unnamed(b) =~= unnamed(a) + more);
    lemma_zintercard_options_goes_on(unnamed(a), 0, (i64_of(a[1])->0) as usize + 2, more);
    assert(b[1] == a[1]);
    assert(unnamed(a)[1] == a[1] && unnamed(b)[1] == a[1]);
    let n = ((i64_of(a[1])->0) as usize) as int;
    assert(2 <= n + 2 <= a.len());
    assert(unnamed(b).subrange(2, n + 2) =~= a.subrange(2, n + 2));
    assert(unnamed(a).subrange(2, n + 2) =~= a.subrange(2, n + 2));
    assert(b.subrange(2, n + 2) =~= a.subrange(2, n + 2));
}

/// Words behind words are read with what the first made.
pub(super) proof fn lemma_zintercard_options_goes_on(
    a: Seq<Seq<u8>>,
    limit: usize,
    i: int,
    more: Seq<Seq<u8>>,
)
    requires
        0 <= i <= a.len(),
    ensures
        zintercard_options(a, limit, i) matches Ok(r) ==> zintercard_options(a + more, limit, i) == zintercard_options(a + more, r, a.len() as int),
    decreases a.len() - i,
{
    let b = a + more;
    assert(i < a.len() ==> b[i] == a[i]);
    assert(i + 1 < a.len() ==> b[i + 1] == a[i + 1]);
    assert(i + 2 < a.len() ==> b[i + 2] == a[i + 2]);
    if i < a.len() {
        let opt = upper_word(a[i]);
        if opt == "LIMIT"@ {
            if a.len() - i > 1 {
                match i64_of(a[i + 1]) {
                    None => {},
                    Some(lim) => {
                        if lim >= 0 {
                            let limit: usize = lim as usize;
                            let i: int = i + 2;
                            lemma_zintercard_options_goes_on(a, limit, i, more);
                        }
                    },
                }
            }
        }
    }
}

/// Without options.
pub proof fn law_zrangebyscore_options_bare(a: Seq<Seq<u8>>, env: &ParseEnv)
    requires
        called(a, "ZRANGEBYSCORE"@),
        a.len() == 4,
        score_bound(env, a[2]) is Ok,
        score_bound(env, a[3]) is Ok,
    ensures
        makes(
            a,
            env,
            CommandView::Zrange {
                key: a[1],
                opts: ZRangeOptsView {
                    min_score: (score_bound(env, a[2])->Ok_0).0,
                    min_inc: (score_bound(env, a[2])->Ok_0).1,
                    max_score: (score_bound(env, a[3])->Ok_0).0,
                    max_inc: (score_bound(env, a[3])->Ok_0).1,
                    by_score: true,
                    rev: false,
                    with_scores: false,
                    offset: 0,
                    count: None,
                    ..ZRangeOpts::plain()
                },
            },
        ),
{
    reveal(verdict);
    lemma_called(a);
    assert(named_command_spec(
        upper_word(a[0]),
        unnamed(a),
        env,
    ) == zrangebyscore_spec(unnamed(a), env)) by {
        lemma_reach_zsets(upper_word(a[0]), unnamed(a), env);
        lemma_zsets_codes();
    }
}

/// An option of `ZRANGEBYSCORE` adds its own to what the others give, in whatever order they stand.
pub proof fn law_zrangebyscore_options(
    a: Seq<Seq<u8>>,
    env: &ParseEnv,
    with_scores: bool,
    offset: usize,
    count: Option<usize>,
    w: Seq<u8>,
    x: Seq<u8>,
    y: Seq<u8>,
)
    requires
        called(a, "ZRANGEBYSCORE"@),
        makes(
            a,
            env,
            CommandView::Zrange {
                key: a[1],
                opts: ZRangeOptsView {
                    min_score: (score_bound(env, a[2])->Ok_0).0,
                    min_inc: (score_bound(env, a[2])->Ok_0).1,
                    max_score: (score_bound(env, a[3])->Ok_0).0,
                    max_inc: (score_bound(env, a[3])->Ok_0).1,
                    by_score: true,
                    rev: false,
                    with_scores,
                    offset,
                    count,
                    ..ZRangeOpts::plain()
                },
            },
        ),
    ensures
        upper_word(w) == "WITHSCORES"@ ==>
            makes(
                a.push(w),
                env,
                CommandView::Zrange {
                    key: a[1],
                    opts: ZRangeOptsView {
                        min_score: (score_bound(env, a[2])->Ok_0).0,
                        min_inc: (score_bound(env, a[2])->Ok_0).1,
                        max_score: (score_bound(env, a[3])->Ok_0).0,
                        max_inc: (score_bound(env, a[3])->Ok_0).1,
                        by_score: true,
                        rev: false,
                        with_scores: true,
                        offset,
                        count,
                        ..ZRangeOpts::plain()
                    },
                },
            ),
        upper_word(w) == "LIMIT"@ ==> refuses(a.push(w), env, "syntax error"@),
        upper_word(w) == "LIMIT"@ ==> refuses(a.push(w).push(x), env, "syntax error"@),
        upper_word(w) == "LIMIT"@ && i64_of(x) is None ==>
            refuses(a.push(w).push(x).push(y), env, "value is not an integer or out of range"@),
        upper_word(w) == "LIMIT"@ && i64_of(x) is Some && i64_of(y) is None ==>
            refuses(a.push(w).push(x).push(y), env, "value is not an integer or out of range"@),
        upper_word(w) == "LIMIT"@ && i64_of(x) is Some && i64_of(y) is Some ==>
            makes(
                a.push(w).push(x).push(y),
                env,
                CommandView::Zrange {
                    key: a[1],
                    opts: ZRangeOptsView {
                        min_score: (score_bound(env, a[2])->Ok_0).0,
                        min_inc: (score_bound(env, a[2])->Ok_0).1,
                        max_score: (score_bound(env, a[3])->Ok_0).0,
                        max_inc: (score_bound(env, a[3])->Ok_0).1,
                        by_score: true,
                        rev: false,
                        with_scores,
                        offset: (if i64_of(x)->0 < 0 { usize::MAX } else { i64_of(x)->0 as usize }),
                        count: (if i64_of(y)->0 < 0 { None } else { Some(i64_of(y)->0 as usize) }),
                        ..ZRangeOpts::plain()
                    },
                },
            ),
        upper_word(w) != "WITHSCORES"@ && upper_word(w) != "LIMIT"@ ==>
            refuses(a.push(w), env, "syntax error"@),
{
    reveal(name_code);
    reveal_strlit("LIMIT");
    reveal_strlit("WITHSCORES");
    assert(name_code("LIMIT"@) == 8387764107911705);
    assert(name_code("WITHSCORES"@) == 9597225659733010);
    reveal_with_fuel(score_range_options, 2);
    assert(a.push(w) =~= a + seq![w]);
    lemma_zrangebyscore_options_step(a, env, with_scores, offset, count, seq![w]);
    lemma_tail(a, seq![w]);
    assert(a.push(w).push(x) =~= a + seq![w, x]);
    lemma_zrangebyscore_options_step(a, env, with_scores, offset, count, seq![w, x]);
    lemma_tail(a, seq![w, x]);
    assert(a.push(w).push(x).push(y) =~= a + seq![w, x, y]);
    lemma_zrangebyscore_options_step(a, env, with_scores, offset, count, seq![w, x, y]);
    lemma_tail(a, seq![w, x, y]);
}

/// What words behind such words make.
#[verifier::spinoff_prover]
#[verifier::rlimit(40)]
proof fn lemma_zrangebyscore_options_step(
    a: Seq<Seq<u8>>,
    env: &ParseEnv,
    with_scores: bool,
    offset: usize,
    count: Option<usize>,
    more: Seq<Seq<u8>>,
)
    requires
        called(a, "ZRANGEBYSCORE"@),
        makes(
            a,
            env,
            CommandView::Zrange {
                key: a[1],
                opts: ZRangeOptsView {
                    min_score: (score_bound(env, a[2])->Ok_0).0,
                    min_inc: (score_bound(env, a[2])->Ok_0).1,
                    max_score: (score_bound(env, a[3])->Ok_0).0,
                    max_inc: (score_bound(env, a[3])->Ok_0).1,
                    by_score: true,
                    rev: false,
                    with_scores,
                    offset,
                    count,
                    ..ZRangeOpts::plain()
                },
            },
        ),
    ensures
        verdict(a + more, env) == match score_range_options(
            (unnamed(a) + more),
            with_scores,
            offset,
            count,
            a.len() as int,
        ) {
            Err(e) => Err(e),
            Ok(r) => Ok(Some(CommandView::Zrange {
                key: a[1],
                opts: ZRangeOptsView {
                    min_score: (score_bound(env, a[2])->Ok_0).0,
                    min_inc: (score_bound(env, a[2])->Ok_0).1,
                    max_score: (score_bound(env, a[3])->Ok_0).0,
                    max_inc: (score_bound(env, a[3])->Ok_0).1,
                    by_score: true,
                    rev: false,
                    with_scores: r.0,
                    offset: r.1,
                    count: r.2,
                    ..ZRangeOpts::plain()
                },
            })),
        },
{
    let b = a + more;
    reveal(verdict);
    lemma_called(a);
    lemma_called(b);
    assert(named_command_spec(
        upper_word(a[0]),
        unnamed(a),
        env,
    ) == zrangebyscore_spec(unnamed(a), env)) by {
        lemma_reach_zsets(upper_word(a[0]), unnamed(a), env);
        lemma_zsets_codes();
    }
    assert(named_command_spec(
        upper_word(b[0]),
        unnamed(b),
        env,
    ) == zrangebyscore_spec(unnamed(b), env)) by {
        lemma_reach_zsets(upper_word(b[0]), unnamed(b), env);
        lemma_zsets_codes();
    }
    assert(unnamed(b) =~= unnamed(a) + more);
    lemma_score_range_options_goes_on(unnamed(a), false, 0, None, 4, more);
}

/// Words behind words are read with what the first made.
pub(super) proof fn lemma_score_range_options_goes_on(
    a: Seq<Seq<u8>>,
    with_scores: bool,
    offset: usize,
    count: Option<usize>,
    i: int,
    more: Seq<Seq<u8>>,
)
    requires
        0 <= i <= a.len(),
    ensures
        score_range_options(a, with_scores, offset, count, i) matches Ok(r) ==> score_range_options(
            a + more,
            with_scores,
            offset,
            count,
            i,
        ) == score_range_options(a + more, r.0, r.1, r.2, a.len() as int),
    decreases a.len() - i,
{
    let b = a + more;
    assert(i < a.len() ==> b[i] == a[i]);
    assert(i + 1 < a.len() ==> b[i + 1] == a[i + 1]);
    assert(i + 2 < a.len() ==> b[i + 2] == a[i + 2]);
    if i < a.len() {
        let opt = upper_word(a[i]);
        if opt == "WITHSCORES"@ {
            let with_scores = true;
            let i: int = i + 1;
            lemma_score_range_options_goes_on(a, with_scores, offset, count, i, more);
        } else if opt == "LIMIT"@ {
            if a.len() - i > 2 {
                match i64_of(a[i + 1]) {
                    None => {},
                    Some(off) => {
                        match i64_of(a[i + 2]) {
                            None => {},
                            Some(c) => {
                                let offset: usize = if off < 0 { usize::MAX } else { off as usize };
                                let count = if c < 0 { None } else { Some(c as usize) };
                                let i: int = i + 3;
                                lemma_score_range_options_goes_on(
                                    a,
                                    with_scores,
                                    offset,
                                    count,
                                    i,
                                    more,
                                );
                            },
                        }
                    },
                }
            }
        }
    }
}

/// Without options.
pub proof fn law_zrevrangebyscore_options_bare(a: Seq<Seq<u8>>, env: &ParseEnv)
    requires
        called(a, "ZREVRANGEBYSCORE"@),
        a.len() == 4,
        score_bound(env, a[2]) is Ok,
        score_bound(env, a[3]) is Ok,
    ensures
        makes(
            a,
            env,
            CommandView::Zrange {
                key: a[1],
                opts: ZRangeOptsView {
                    min_score: (score_bound(env, a[3])->Ok_0).0,
                    min_inc: (score_bound(env, a[3])->Ok_0).1,
                    max_score: (score_bound(env, a[2])->Ok_0).0,
                    max_inc: (score_bound(env, a[2])->Ok_0).1,
                    by_score: true,
                    rev: true,
                    with_scores: false,
                    offset: 0,
                    count: None,
                    ..ZRangeOpts::plain()
                },
            },
        ),
{
    reveal(verdict);
    lemma_called(a);
    assert(named_command_spec(
        upper_word(a[0]),
        unnamed(a),
        env,
    ) == zrevrangebyscore_spec(unnamed(a), env)) by {
        lemma_reach_zsets(upper_word(a[0]), unnamed(a), env);
        lemma_zsets_codes();
    }
}

/// An option of `ZREVRANGEBYSCORE` adds its own to what the others give, in whatever order they stand.
pub proof fn law_zrevrangebyscore_options(
    a: Seq<Seq<u8>>,
    env: &ParseEnv,
    with_scores: bool,
    offset: usize,
    count: Option<usize>,
    w: Seq<u8>,
    x: Seq<u8>,
    y: Seq<u8>,
)
    requires
        called(a, "ZREVRANGEBYSCORE"@),
        makes(
            a,
            env,
            CommandView::Zrange {
                key: a[1],
                opts: ZRangeOptsView {
                    min_score: (score_bound(env, a[3])->Ok_0).0,
                    min_inc: (score_bound(env, a[3])->Ok_0).1,
                    max_score: (score_bound(env, a[2])->Ok_0).0,
                    max_inc: (score_bound(env, a[2])->Ok_0).1,
                    by_score: true,
                    rev: true,
                    with_scores,
                    offset,
                    count,
                    ..ZRangeOpts::plain()
                },
            },
        ),
    ensures
        upper_word(w) == "WITHSCORES"@ ==>
            makes(
                a.push(w),
                env,
                CommandView::Zrange {
                    key: a[1],
                    opts: ZRangeOptsView {
                        min_score: (score_bound(env, a[3])->Ok_0).0,
                        min_inc: (score_bound(env, a[3])->Ok_0).1,
                        max_score: (score_bound(env, a[2])->Ok_0).0,
                        max_inc: (score_bound(env, a[2])->Ok_0).1,
                        by_score: true,
                        rev: true,
                        with_scores: true,
                        offset,
                        count,
                        ..ZRangeOpts::plain()
                    },
                },
            ),
        upper_word(w) == "LIMIT"@ ==> refuses(a.push(w), env, "syntax error"@),
        upper_word(w) == "LIMIT"@ ==> refuses(a.push(w).push(x), env, "syntax error"@),
        upper_word(w) == "LIMIT"@ && i64_of(x) is None ==>
            refuses(a.push(w).push(x).push(y), env, "value is not an integer or out of range"@),
        upper_word(w) == "LIMIT"@ && i64_of(x) is Some && i64_of(y) is None ==>
            refuses(a.push(w).push(x).push(y), env, "value is not an integer or out of range"@),
        upper_word(w) == "LIMIT"@ && i64_of(x) is Some && i64_of(y) is Some ==>
            makes(
                a.push(w).push(x).push(y),
                env,
                CommandView::Zrange {
                    key: a[1],
                    opts: ZRangeOptsView {
                        min_score: (score_bound(env, a[3])->Ok_0).0,
                        min_inc: (score_bound(env, a[3])->Ok_0).1,
                        max_score: (score_bound(env, a[2])->Ok_0).0,
                        max_inc: (score_bound(env, a[2])->Ok_0).1,
                        by_score: true,
                        rev: true,
                        with_scores,
                        offset: (if i64_of(x)->0 < 0 { usize::MAX } else { i64_of(x)->0 as usize }),
                        count: (if i64_of(y)->0 < 0 { None } else { Some(i64_of(y)->0 as usize) }),
                        ..ZRangeOpts::plain()
                    },
                },
            ),
        upper_word(w) != "WITHSCORES"@ && upper_word(w) != "LIMIT"@ ==>
            refuses(a.push(w), env, "syntax error"@),
{
    reveal(name_code);
    reveal_strlit("LIMIT");
    reveal_strlit("WITHSCORES");
    assert(name_code("LIMIT"@) == 8387764107911705);
    assert(name_code("WITHSCORES"@) == 9597225659733010);
    reveal_with_fuel(score_range_options, 2);
    assert(a.push(w) =~= a + seq![w]);
    lemma_zrevrangebyscore_options_step(a, env, with_scores, offset, count, seq![w]);
    lemma_tail(a, seq![w]);
    assert(a.push(w).push(x) =~= a + seq![w, x]);
    lemma_zrevrangebyscore_options_step(a, env, with_scores, offset, count, seq![w, x]);
    lemma_tail(a, seq![w, x]);
    assert(a.push(w).push(x).push(y) =~= a + seq![w, x, y]);
    lemma_zrevrangebyscore_options_step(a, env, with_scores, offset, count, seq![w, x, y]);
    lemma_tail(a, seq![w, x, y]);
}

/// What words behind such words make.
#[verifier::spinoff_prover]
#[verifier::rlimit(40)]
proof fn lemma_zrevrangebyscore_options_step(
    a: Seq<Seq<u8>>,
    env: &ParseEnv,
    with_scores: bool,
    offset: usize,
    count: Option<usize>,
    more: Seq<Seq<u8>>,
)
    requires
        called(a, "ZREVRANGEBYSCORE"@),
        makes(
            a,
            env,
            CommandView::Zrange {
                key: a[1],
                opts: ZRangeOptsView {
                    min_score: (score_bound(env, a[3])->Ok_0).0,
                    min_inc: (score_bound(env, a[3])->Ok_0).1,
                    max_score: (score_bound(env, a[2])->Ok_0).0,
                    max_inc: (score_bound(env, a[2])->Ok_0).1,
                    by_score: true,
                    rev: true,
                    with_scores,
                    offset,
                    count,
                    ..ZRangeOpts::plain()
                },
            },
        ),
    ensures
        verdict(a + more, env) == match score_range_options(
            (unnamed(a) + more),
            with_scores,
            offset,
            count,
            a.len() as int,
        ) {
            Err(e) => Err(e),
            Ok(r) => Ok(Some(CommandView::Zrange {
                key: a[1],
                opts: ZRangeOptsView {
                    min_score: (score_bound(env, a[3])->Ok_0).0,
                    min_inc: (score_bound(env, a[3])->Ok_0).1,
                    max_score: (score_bound(env, a[2])->Ok_0).0,
                    max_inc: (score_bound(env, a[2])->Ok_0).1,
                    by_score: true,
                    rev: true,
                    with_scores: r.0,
                    offset: r.1,
                    count: r.2,
                    ..ZRangeOpts::plain()
                },
            })),
        },
{
    let b = a + more;
    reveal(verdict);
    lemma_called(a);
    lemma_called(b);
    assert(named_command_spec(
        upper_word(a[0]),
        unnamed(a),
        env,
    ) == zrevrangebyscore_spec(unnamed(a), env)) by {
        lemma_reach_zsets(upper_word(a[0]), unnamed(a), env);
        lemma_zsets_codes();
    }
    assert(named_command_spec(
        upper_word(b[0]),
        unnamed(b),
        env,
    ) == zrevrangebyscore_spec(unnamed(b), env)) by {
        lemma_reach_zsets(upper_word(b[0]), unnamed(b), env);
        lemma_zsets_codes();
    }
    assert(unnamed(b) =~= unnamed(a) + more);
    lemma_score_range_options_goes_on(unnamed(a), false, 0, None, 4, more);
}

} // verus!
