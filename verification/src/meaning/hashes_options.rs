//! What the options of the commands on hashes add.
use vstd::prelude::*;

use crate::build::named_command_spec;
use crate::build::hashes::hscan_spec;
use crate::build::naming::{lemma_hashes_codes, lemma_reach_hashes, name_code};
use crate::build::walks::walk_options;
use crate::command::CommandView;
use crate::numbers::usize_of;
use crate::readings::ParseEnv;
use crate::resp::unnamed;
use crate::text::upper_word;
use super::{called, lemma_called, lemma_tail, makes, refuses, verdict};

verus! {

/// Without options.
pub proof fn law_hscan_options_bare(a: Seq<Seq<u8>>, env: &ParseEnv)
    requires
        called(a, "HSCAN"@),
        a.len() == 3,
        usize_of(a[2]) is Some,
    ensures
        makes(
            a,
            env,
            CommandView::Hscan { key: a[1], cursor: usize_of(a[2])->0, pattern: None, count: None },
        ),
{
    reveal(verdict);
    lemma_called(a);
    assert(named_command_spec(upper_word(a[0]), unnamed(a), env) == hscan_spec(unnamed(a))) by {
        lemma_reach_hashes(upper_word(a[0]), unnamed(a), env);
        lemma_hashes_codes();
    }
}

/// An option of `HSCAN` adds its own to what the others give, in whatever order they stand.
pub proof fn law_hscan_options(
    a: Seq<Seq<u8>>,
    env: &ParseEnv,
    pattern: Option<Seq<u8>>,
    count: Option<usize>,
    w: Seq<u8>,
    x: Seq<u8>,
)
    requires
        called(a, "HSCAN"@),
        makes(a, env, CommandView::Hscan { key: a[1], cursor: usize_of(a[2])->0, pattern, count }),
    ensures
        upper_word(w) == "MATCH"@ ==> refuses(a.push(w), env, "syntax error"@),
        upper_word(w) == "MATCH"@ ==>
            makes(
                a.push(w).push(x),
                env,
                CommandView::Hscan {
                    key: a[1],
                    cursor: usize_of(a[2])->0,
                    pattern: Some(x),
                    count,
                },
            ),
        upper_word(w) == "COUNT"@ ==> refuses(a.push(w), env, "syntax error"@),
        upper_word(w) == "COUNT"@ && usize_of(x) is None ==>
            refuses(a.push(w).push(x), env, "value is not an integer or out of range"@),
        upper_word(w) == "COUNT"@ && usize_of(x) is Some ==>
            makes(
                a.push(w).push(x),
                env,
                CommandView::Hscan {
                    key: a[1],
                    cursor: usize_of(a[2])->0,
                    pattern,
                    count: Some(usize_of(x)->0),
                },
            ),
        upper_word(w) != "MATCH"@ && upper_word(w) != "COUNT"@ ==>
            refuses(a.push(w), env, "syntax error"@),
{
    reveal(name_code);
    reveal_strlit("COUNT");
    reveal_strlit("MATCH");
    assert(name_code("COUNT"@) == 7400789012027705);
    assert(name_code("MATCH"@) == 8494269230370005);
    reveal_with_fuel(walk_options, 2);
    assert(a.push(w) =~= a + seq![w]);
    lemma_hscan_options_step(a, env, pattern, count, seq![w]);
    lemma_tail(a, seq![w]);
    assert(a.push(w).push(x) =~= a + seq![w, x]);
    lemma_hscan_options_step(a, env, pattern, count, seq![w, x]);
    lemma_tail(a, seq![w, x]);
}

/// What words behind such words make.
#[verifier::spinoff_prover]
#[verifier::rlimit(40)]
proof fn lemma_hscan_options_step(
    a: Seq<Seq<u8>>,
    env: &ParseEnv,
    pattern: Option<Seq<u8>>,
    count: Option<usize>,
    more: Seq<Seq<u8>>,
)
    requires
        called(a, "HSCAN"@),
        makes(a, env, CommandView::Hscan { key: a[1], cursor: usize_of(a[2])->0, pattern, count }),
    ensures
        verdict(a + more, env) == match walk_options(
            (unnamed(a) + more),
            pattern,
            count,
            a.len() as int,
        ) {
            Err(e) => Err(e),
            Ok(r) => Ok(Some(CommandView::Hscan {
                key: a[1],
                cursor: usize_of(a[2])->0,
                pattern: r.0,
                count: r.1,
            })),
        },
{
    let b = a + more;
    reveal(verdict);
    lemma_called(a);
    lemma_called(b);
    assert(named_command_spec(upper_word(a[0]), unnamed(a), env) == hscan_spec(unnamed(a))) by {
        lemma_reach_hashes(upper_word(a[0]), unnamed(a), env);
        lemma_hashes_codes();
    }
    assert(named_command_spec(upper_word(b[0]), unnamed(b), env) == hscan_spec(unnamed(b))) by {
        lemma_reach_hashes(upper_word(b[0]), unnamed(b), env);
        lemma_hashes_codes();
    }
    assert(unnamed(b) =~= unnamed(a) + more);
    lemma_walk_options_goes_on(unnamed(a), None, None, 3, more);
}

/// Words behind words are read with what the first made.
pub(super) proof fn lemma_walk_options_goes_on(
    a: Seq<Seq<u8>>,
    pattern: Option<Seq<u8>>,
    count: Option<usize>,
    i: int,
    more: Seq<Seq<u8>>,
)
    requires
        0 <= i <= a.len(),
    ensures
        walk_options(a, pattern, count, i) matches Ok(r) ==> walk_options(a + more, pattern, count, i) == walk_options(
            a + more,
            r.0,
            r.1,
            a.len() as int,
        ),
    decreases a.len() - i,
{
    let b = a + more;
    assert(i < a.len() ==> b[i] == a[i]);
    assert(i + 1 < a.len() ==> b[i + 1] == a[i + 1]);
    assert(i + 2 < a.len() ==> b[i + 2] == a[i + 2]);
    if i < a.len() {
        let opt = upper_word(a[i]);
        if opt == "MATCH"@ {
            if a.len() - i > 1 {
                let pattern = Some(a[i + 1]);
                let i: int = i + 2;
                lemma_walk_options_goes_on(a, pattern, count, i, more);
            }
        } else if opt == "COUNT"@ {
            if a.len() - i > 1 {
                match usize_of(a[i + 1]) {
                    None => {},
                    Some(c) => {
                        let count = Some(c);
                        let i: int = i + 2;
                        lemma_walk_options_goes_on(a, pattern, count, i, more);
                    },
                }
            }
        }
    }
}

} // verus!
