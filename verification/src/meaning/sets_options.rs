//! What the options of the commands on sets add.
use vstd::prelude::*;

use crate::build::named_command_spec;
use crate::build::naming::{lemma_reach_sets, lemma_sets_codes, name_code};
use crate::build::sets::{
    card_options, sdiffcard_spec, sintercard_spec, sscan_spec, sunioncard_spec,
};
use crate::build::walks::walk_options;
use crate::command::CommandView;
use crate::numbers::{i64_of, usize_of};
use crate::readings::ParseEnv;
use crate::resp::unnamed;
use crate::text::upper_word;
use super::{called, lemma_called, lemma_tail, makes, refuses, verdict};
use super::hashes_options::lemma_walk_options_goes_on;

verus! {

/// Without options.
pub proof fn law_sscan_options_bare(a: Seq<Seq<u8>>, env: &ParseEnv)
    requires
        called(a, "SSCAN"@),
        a.len() == 3,
        usize_of(a[2]) is Some,
    ensures
        makes(
            a,
            env,
            CommandView::Sscan { key: a[1], cursor: usize_of(a[2])->0, pattern: None, count: None },
        ),
{
    reveal(verdict);
    lemma_called(a);
    assert(named_command_spec(upper_word(a[0]), unnamed(a), env) == sscan_spec(unnamed(a))) by {
        lemma_reach_sets(upper_word(a[0]), unnamed(a), env);
        lemma_sets_codes();
    }
}

/// An option of `SSCAN` adds its own to what the others give, in whatever order they stand.
pub proof fn law_sscan_options(
    a: Seq<Seq<u8>>,
    env: &ParseEnv,
    pattern: Option<Seq<u8>>,
    count: Option<usize>,
    w: Seq<u8>,
    x: Seq<u8>,
)
    requires
        called(a, "SSCAN"@),
        makes(a, env, CommandView::Sscan { key: a[1], cursor: usize_of(a[2])->0, pattern, count }),
    ensures
        upper_word(w) == "MATCH"@ ==> refuses(a.push(w), env, "syntax error"@),
        upper_word(w) == "MATCH"@ ==>
            makes(
                a.push(w).push(x),
                env,
                CommandView::Sscan {
                    key: a[1],
                    cursor: usize_of(a[2])->0,
                    pattern: Some(x),
                    count,
                },
            ),
        upper_word(w) == "COUNT"@ ==> refuses(a.push(w), env, "syntax error"@),
        upper_word(w) == "COUNT"@ && usize_of(x) is None ==>
            refuses(a.push(w).push(x), env, "value is not an integer or out of range"@),
        upper_word(w) == "COUNT"@ && usize_of(x) is Some ==>
            makes(
                a.push(w).push(x),
                env,
                CommandView::Sscan {
                    key: a[1],
                    cursor: usize_of(a[2])->0,
                    pattern,
                    count: Some(usize_of(x)->0),
                },
            ),
        upper_word(w) != "MATCH"@ && upper_word(w) != "COUNT"@ ==>
            refuses(a.push(w), env, "syntax error"@),
{
    reveal(name_code);
    reveal_strlit("COUNT");
    reveal_strlit("MATCH");
    assert(name_code("COUNT"@) == 7400789012027705);
    assert(name_code("MATCH"@) == 8494269230370005);
    reveal_with_fuel(walk_options, 2);
    assert(a.push(w) =~= a + seq![w]);
    lemma_sscan_options_step(a, env, pattern, count, seq![w]);
    lemma_tail(a, seq![w]);
    assert(a.push(w).push(x) =~= a + seq![w, x]);
    lemma_sscan_options_step(a, env, pattern, count, seq![w, x]);
    lemma_tail(a, seq![w, x]);
}

/// What words behind such words make.
#[verifier::spinoff_prover]
#[verifier::rlimit(40)]
proof fn lemma_sscan_options_step(
    a: Seq<Seq<u8>>,
    env: &ParseEnv,
    pattern: Option<Seq<u8>>,
    count: Option<usize>,
    more: Seq<Seq<u8>>,
)
    requires
        called(a, "SSCAN"@),
        makes(a, env, CommandView::Sscan { key: a[1], cursor: usize_of(a[2])->0, pattern, count }),
    ensures
        verdict(a + more, env) == match walk_options(
            (unnamed(a) + more),
            pattern,
            count,
            a.len() as int,
        ) {
            Err(e) => Err(e),
            Ok(r) => Ok(Some(CommandView::Sscan {
                key: a[1],
                cursor: usize_of(a[2])->0,
                pattern: r.0,
                count: r.1,
            })),
        },
{
    let b = a + more;
    reveal(verdict);
    lemma_called(a);
    lemma_called(b);
    assert(named_command_spec(upper_word(a[0]), unnamed(a), env) == sscan_spec(unnamed(a))) by {
        lemma_reach_sets(upper_word(a[0]), unnamed(a), env);
        lemma_sets_codes();
    }
    assert(named_command_spec(upper_word(b[0]), unnamed(b), env) == sscan_spec(unnamed(b))) by {
        lemma_reach_sets(upper_word(b[0]), unnamed(b), env);
        lemma_sets_codes();
    }
    assert(unnamed(b) =~= unnamed(a) + more);
    lemma_walk_options_goes_on(unnamed(a), None, None, 3, more);
}

/// Without options.
pub proof fn law_sintercard_options_bare(a: Seq<Seq<u8>>, env: &ParseEnv)
    requires
        called(a, "SINTERCARD"@),
        i64_of(a[1]) is Some,
        i64_of(a[1])->0 > 0,
        a.len() == (i64_of(a[1])->0) as usize + 2,
        a.len() >= 3,
    ensures
        makes(
            a,
            env,
            CommandView::Sintercard {
                keys: a.subrange(2, (i64_of(a[1])->0) as usize + 2),
                limit: 0,
            },
        ),
{
    reveal(verdict);
    lemma_called(a);
    assert(named_command_spec(
        upper_word(a[0]),
        unnamed(a),
        env,
    ) == sintercard_spec(unnamed(a))) by {
        lemma_reach_sets(upper_word(a[0]), unnamed(a), env);
        lemma_sets_codes();
    }
}

/// An option of `SINTERCARD` adds its own to what the others give, in whatever order they stand.
pub proof fn law_sintercard_options(
    a: Seq<Seq<u8>>,
    env: &ParseEnv,
    limit: usize,
    w: Seq<u8>,
    x: Seq<u8>,
)
    requires
        called(a, "SINTERCARD"@),
        makes(
            a,
            env,
            CommandView::Sintercard { keys: a.subrange(2, (i64_of(a[1])->0) as usize + 2), limit },
        ),
    ensures
        upper_word(w) == "LIMIT"@ ==> refuses(a.push(w), env, "syntax error"@),
        upper_word(w) == "LIMIT"@ && i64_of(x) is None ==>
            refuses(a.push(w).push(x), env, "LIMIT can't be negative"@),
        upper_word(w) == "LIMIT"@ && i64_of(x) is Some && i64_of(x)->0 < 0 ==>
            refuses(a.push(w).push(x), env, "LIMIT can't be negative"@),
        upper_word(w) == "LIMIT"@ && i64_of(x) is Some && i64_of(x)->0 >= 0 ==>
            makes(
                a.push(w).push(x),
                env,
                CommandView::Sintercard {
                    keys: a.subrange(2, (i64_of(a[1])->0) as usize + 2),
                    limit: (i64_of(x)->0 as usize),
                },
            ),
        false && upper_word(w) == "APPROX"@ ==>
            makes(
                a.push(w),
                env,
                CommandView::Sintercard {
                    keys: a.subrange(2, (i64_of(a[1])->0) as usize + 2),
                    limit,
                },
            ),
        upper_word(w) != "LIMIT"@ && ((!false || upper_word(w) != "APPROX"@)) ==>
            refuses(a.push(w), env, "syntax error"@),
{
    reveal(name_code);
    reveal_strlit("APPROX");
    reveal_strlit("LIMIT");
    assert(name_code("APPROX"@) == 7181323470830606);
    assert(name_code("LIMIT"@) == 8387764107911705);
    reveal_with_fuel(card_options, 2);
    assert(a.push(w) =~= a + seq![w]);
    lemma_sintercard_options_step(a, env, limit, seq![w]);
    lemma_tail(a, seq![w]);
    assert(a.push(w).push(x) =~= a + seq![w, x]);
    lemma_sintercard_options_step(a, env, limit, seq![w, x]);
    lemma_tail(a, seq![w, x]);
}

/// What words behind such words make.
#[verifier::spinoff_prover]
#[verifier::rlimit(40)]
proof fn lemma_sintercard_options_step(
    a: Seq<Seq<u8>>,
    env: &ParseEnv,
    limit: usize,
    more: Seq<Seq<u8>>,
)
    requires
        called(a, "SINTERCARD"@),
        makes(
            a,
            env,
            CommandView::Sintercard { keys: a.subrange(2, (i64_of(a[1])->0) as usize + 2), limit },
        ),
    ensures
        verdict(a + more, env) == match card_options(
            (unnamed(a) + more),
            false,
            limit,
            a.len() as int,
        ) {
            Err(e) => Err(e),
            Ok(r) => Ok(Some(CommandView::Sintercard {
                keys: a.subrange(2, (i64_of(a[1])->0) as usize + 2),
                limit: r,
            })),
        },
{
    let b = a + more;
    reveal(verdict);
    lemma_called(a);
    lemma_called(b);
    assert(named_command_spec(
        upper_word(a[0]),
        unnamed(a),
        env,
    ) == sintercard_spec(unnamed(a))) by {
        lemma_reach_sets(upper_word(a[0]), unnamed(a), env);
        lemma_sets_codes();
    }
    assert(named_command_spec(
        upper_word(b[0]),
        unnamed(b),
        env,
    ) == sintercard_spec(unnamed(b))) by {
        lemma_reach_sets(upper_word(b[0]), unnamed(b), env);
        lemma_sets_codes();
    }
    assert(unnamed(b) =~= unnamed(a) + more);
    lemma_card_options_goes_on(unnamed(a), false, 0, (i64_of(a[1])->0) as usize + 2, more);
    assert(b[1] == a[1]);
    assert(unnamed(a)[1] == a[1] && unnamed(b)[1] == a[1]);
    let n = ((i64_of(a[1])->0) as usize) as int;
    assert(2 <= n + 2 <= a.len());
    assert(unnamed(b).subrange(2, n + 2) =~= a.subrange(2, n + 2));
    assert(unnamed(a).subrange(2, n + 2) =~= a.subrange(2, n + 2));
    assert(b.subrange(2, n + 2) =~= a.subrange(2, n + 2));
}

/// Words behind words are read with what the first made.
pub(super) proof fn lemma_card_options_goes_on(
    a: Seq<Seq<u8>>,
    approx: bool,
    limit: usize,
    i: int,
    more: Seq<Seq<u8>>,
)
    requires
        0 <= i <= a.len(),
    ensures
        card_options(a, approx, limit, i) matches Ok(r) ==> card_options(a + more, approx, limit, i) == card_options(
            a + more,
            approx,
            r,
            a.len() as int,
        ),
    decreases a.len() - i,
{
    let b = a + more;
    assert(i < a.len() ==> b[i] == a[i]);
    assert(i + 1 < a.len() ==> b[i + 1] == a[i + 1]);
    assert(i + 2 < a.len() ==> b[i + 2] == a[i + 2]);
    if i < a.len() {
        let opt = upper_word(a[i]);
        if opt == "LIMIT"@ {
            if a.len() - i > 1 {
                match i64_of(a[i + 1]) {
                    None => {},
                    Some(lim) => {
                        if lim >= 0 {
                            let limit: usize = lim as usize;
                            let i: int = i + 2;
                            lemma_card_options_goes_on(a, approx, limit, i, more);
                        }
                    },
                }
            }
        } else if approx && opt == "APPROX"@ {
            let i: int = i + 1;
            lemma_card_options_goes_on(a, approx, limit, i, more);
        }
    }
}

/// Without options.
pub proof fn law_sunioncard_options_bare(a: Seq<Seq<u8>>, env: &ParseEnv)
    requires
        called(a, "SUNIONCARD"@),
        i64_of(a[1]) is Some,
        i64_of(a[1])->0 > 0,
        a.len() == (i64_of(a[1])->0) as usize + 2,
        a.len() >= 3,
    ensures
        makes(
            a,
            env,
            CommandView::Sunioncard {
                keys: a.subrange(2, (i64_of(a[1])->0) as usize + 2),
                limit: 0,
            },
        ),
{
    reveal(verdict);
    lemma_called(a);
    assert(named_command_spec(
        upper_word(a[0]),
        unnamed(a),
        env,
    ) == sunioncard_spec(unnamed(a))) by {
        lemma_reach_sets(upper_word(a[0]), unnamed(a), env);
        lemma_sets_codes();
    }
}

/// An option of `SUNIONCARD` adds its own to what the others give, in whatever order they stand.
pub proof fn law_sunioncard_options(
    a: Seq<Seq<u8>>,
    env: &ParseEnv,
    limit: usize,
    w: Seq<u8>,
    x: Seq<u8>,
)
    requires
        called(a, "SUNIONCARD"@),
        makes(
            a,
            env,
            CommandView::Sunioncard { keys: a.subrange(2, (i64_of(a[1])->0) as usize + 2), limit },
        ),
    ensures
        upper_word(w) == "LIMIT"@ ==> refuses(a.push(w), env, "syntax error"@),
        upper_word(w) == "LIMIT"@ && i64_of(x) is None ==>
            refuses(a.push(w).push(x), env, "LIMIT can't be negative"@),
        upper_word(w) == "LIMIT"@ && i64_of(x) is Some && i64_of(x)->0 < 0 ==>
            refuses(a.push(w).push(x), env, "LIMIT can't be negative"@),
        upper_word(w) == "LIMIT"@ && i64_of(x) is Some && i64_of(x)->0 >= 0 ==>
            makes(
                a.push(w).push(x),
                env,
                CommandView::Sunioncard {
                    keys: a.subrange(2, (i64_of(a[1])->0) as usize + 2),
                    limit: (i64_of(x)->0 as usize),
                },
            ),
        true && upper_word(w) == "APPROX"@ ==>
            makes(
                a.push(w),
                env,
                CommandView::Sunioncard {
                    keys: a.subrange(2, (i64_of(a[1])->0) as usize + 2),
                    limit,
                },
            ),
        upper_word(w) != "LIMIT"@ && ((!true || upper_word(w) != "APPROX"@)) ==>
            refuses(a.push(w), env, "syntax error"@),
{
    reveal(name_code);
    reveal_strlit("APPROX");
    reveal_strlit("LIMIT");
    assert(name_code("APPROX"@) == 7181323470830606);
    assert(name_code("LIMIT"@) == 8387764107911705);
    reveal_with_fuel(card_options, 2);
    assert(a.push(w) =~= a + seq![w]);
    lemma_sunioncard_options_step(a, env, limit, seq![w]);
    lemma_tail(a, seq![w]);
    assert(a.push(w).push(x) =~= a + seq![w, x]);
    lemma_sunioncard_options_step(a, env, limit, seq![w, x]);
    lemma_tail(a, seq![w, x]);
}

/// What words behind such words make.
#[verifier::spinoff_prover]
#[verifier::rlimit(40)]
proof fn lemma_sunioncard_options_step(
    a: Seq<Seq<u8>>,
    env: &ParseEnv,
    limit: usize,
    more: Seq<Seq<u8>>,
)
    requires
        called(a, "SUNIONCARD"@),
        makes(
            a,
            env,
            CommandView::Sunioncard { keys: a.subrange(2, (i64_of(a[1])->0) as usize + 2), limit },
        ),
    ensures
        verdict(a + more, env) == match card_options(
            (unnamed(a) + more),
            true,
            limit,
            a.len() as int,
        ) {
            Err(e) => Err(e),
            Ok(r) => Ok(Some(CommandView::Sunioncard {
                keys: a.subrange(2, (i64_of(a[1])->0) as usize + 2),
                limit: r,
            })),
        },
{
    let b = a + more;
    reveal(verdict);
    lemma_called(a);
    lemma_called(b);
    assert(named_command_spec(
        upper_word(a[0]),
        unnamed(a),
        env,
    ) == sunioncard_spec(unnamed(a))) by {
        lemma_reach_sets(upper_word(a[0]), unnamed(a), env);
        lemma_sets_codes();
    }
    assert(named_command_spec(
        upper_word(b[0]),
        unnamed(b),
        env,
    ) == sunioncard_spec(unnamed(b))) by {
        lemma_reach_sets(upper_word(b[0]), unnamed(b), env);
        lemma_sets_codes();
    }
    assert(unnamed(b) =~= unnamed(a) + more);
    lemma_card_options_goes_on(unnamed(a), true, 0, (i64_of(a[1])->0) as usize + 2, more);
    assert(b[1] == a[1]);
    assert(unnamed(a)[1] == a[1] && unnamed(b)[1] == a[1]);
    let n = ((i64_of(a[1])->0) as usize) as int;
    assert(2 <= n + 2 <= a.len());
    assert(unnamed(b).subrange(2, n + 2) =~= a.subrange(2, n + 2));
    assert(unnamed(a).subrange(2, n + 2) =~= a.subrange(2, n + 2));
    assert(b.subrange(2, n + 2) =~= a.subrange(2, n + 2));
}

/// Without options.
pub proof fn law_sdiffcard_options_bare(a: Seq<Seq<u8>>, env: &ParseEnv)
    requires
        called(a, "SDIFFCARD"@),
        i64_of(a[1]) is Some,
        i64_of(a[1])->0 > 0,
        a.len() == (i64_of(a[1])->0) as usize + 2,
        a.len() >= 3,
    ensures
        makes(
            a,
            env,
            CommandView::Sdiffcard {
                keys: a.subrange(2, (i64_of(a[1])->0) as usize + 2),
                limit: 0,
            },
        ),
{
    reveal(verdict);
    lemma_called(a);
    assert(named_command_spec(upper_word(a[0]), unnamed(a), env) == sdiffcard_spec(unnamed(a))) by {
        lemma_reach_sets(upper_word(a[0]), unnamed(a), env);
        lemma_sets_codes();
    }
}

/// An option of `SDIFFCARD` adds its own to what the others give, in whatever order they stand.
pub proof fn law_sdiffcard_options(
    a: Seq<Seq<u8>>,
    env: &ParseEnv,
    limit: usize,
    w: Seq<u8>,
    x: Seq<u8>,
)
    requires
        called(a, "SDIFFCARD"@),
        makes(
            a,
            env,
            CommandView::Sdiffcard { keys: a.subrange(2, (i64_of(a[1])->0) as usize + 2), limit },
        ),
    ensures
        upper_word(w) == "LIMIT"@ ==> refuses(a.push(w), env, "syntax error"@),
        upper_word(w) == "LIMIT"@ && i64_of(x) is None ==>
            refuses(a.push(w).push(x), env, "LIMIT can't be negative"@),
        upper_word(w) == "LIMIT"@ && i64_of(x) is Some && i64_of(x)->0 < 0 ==>
            refuses(a.push(w).push(x), env, "LIMIT can't be negative"@),
        upper_word(w) == "LIMIT"@ && i64_of(x) is Some && i64_of(x)->0 >= 0 ==>
            makes(
                a.push(w).push(x),
                env,
                CommandView::Sdiffcard {
                    keys: a.subrange(2, (i64_of(a[1])->0) as usize + 2),
                    limit: (i64_of(x)->0 as usize),
                },
            ),
        false && upper_word(w) == "APPROX"@ ==>
            makes(
                a.push(w),
                env,
                CommandView::Sdiffcard {
                    keys: a.subrange(2, (i64_of(a[1])->0) as usize + 2),
                    limit,
                },
            ),
        upper_word(w) != "LIMIT"@ && ((!false || upper_word(w) != "APPROX"@)) ==>
            refuses(a.push(w), env, "syntax error"@),
{
    reveal(name_code);
    reveal_strlit("APPROX");
    reveal_strlit("LIMIT");
    assert(name_code("APPROX"@) == 7181323470830606);
    assert(name_code("LIMIT"@) == 8387764107911705);
    reveal_with_fuel(card_options, 2);
    assert(a.push(w) =~= a + seq![w]);
    lemma_sdiffcard_options_step(a, env, limit, seq![w]);
    lemma_tail(a, seq![w]);
    assert(a.push(w).push(x) =~= a + seq![w, x]);
    lemma_sdiffcard_options_step(a, env, limit, seq![w, x]);
    lemma_tail(a, seq![w, x]);
}

/// What words behind such words make.
#[verifier::spinoff_prover]
#[verifier::rlimit(40)]
proof fn lemma_sdiffcard_options_step(
    a: Seq<Seq<u8>>,
    env: &ParseEnv,
    limit: usize,
    more: Seq<Seq<u8>>,
)
    requires
        called(a, "SDIFFCARD"@),
        makes(
            a,
            env,
            CommandView::Sdiffcard { keys: a.subrange(2, (i64_of(a[1])->0) as usize + 2), limit },
        ),
    ensures
        verdict(a + more, env) == match card_options(
            (unnamed(a) + more),
            false,
            limit,
            a.len() as int,
        ) {
            Err(e) => Err(e),
            Ok(r) => Ok(Some(CommandView::Sdiffcard {
                keys: a.subrange(2, (i64_of(a[1])->0) as usize + 2),
                limit: r,
            })),
        },
{
    let b = a + more;
    reveal(verdict);
    lemma_called(a);
    lemma_called(b);
    assert(named_command_spec(upper_word(a[0]), unnamed(a), env) == sdiffcard_spec(unnamed(a))) by {
        lemma_reach_sets(upper_word(a[0]), unnamed(a), env);
        lemma_sets_codes();
    }
    assert(named_command_spec(upper_word(b[0]), unnamed(b), env) == sdiffcard_spec(unnamed(b))) by {
        lemma_reach_sets(upper_word(b[0]), unnamed(b), env);
        lemma_sets_codes();
    }
    assert(unnamed(b) =~= unnamed(a) + more);
    lemma_card_options_goes_on(unnamed(a), false, 0, (i64_of(a[1])->0) as usize + 2, more);
    assert(b[1] == a[1]);
    assert(unnamed(a)[1] == a[1] && unnamed(b)[1] == a[1]);
    let n = ((i64_of(a[1])->0) as usize) as int;
    assert(2 <= n + 2 <= a.len());
    assert(unnamed(b).subrange(2, n + 2) =~= a.subrange(2, n + 2));
    assert(unnamed(a).subrange(2, n + 2) =~= a.subrange(2, n + 2));
    assert(b.subrange(2, n + 2) =~= a.subrange(2, n + 2));
}

} // verus!
