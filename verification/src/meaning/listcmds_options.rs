//! What the options of the commands on lists add.
use vstd::prelude::*;

use crate::build::named_command_spec;
use crate::build::listcmds::{lpos_options, lpos_spec, sort_options, sort_spec};
use crate::build::naming::{lemma_listcmds_codes, lemma_reach_listcmds, name_code};
use crate::command::CommandView;
use crate::numbers::{i64_of, usize_of};
use crate::readings::{ParseEnv, read};
use crate::resp::unnamed;
use crate::text::upper_word;
use super::{called, lemma_called, lemma_tail, makes, refuses, verdict};

verus! {

/// Without options.
pub proof fn law_lpos_options_bare(a: Seq<Seq<u8>>, env: &ParseEnv)
    requires
        called(a, "LPOS"@),
        a.len() == 3,
    ensures
        makes(
            a,
            env,
            CommandView::Lpos { key: a[1], element: a[2], rank: None, count: None, maxlen: None },
        ),
{
    reveal(verdict);
    lemma_called(a);
    assert(named_command_spec(upper_word(a[0]), unnamed(a), env) == lpos_spec(unnamed(a))) by {
        lemma_reach_listcmds(upper_word(a[0]), unnamed(a), env);
        lemma_listcmds_codes();
    }
}

/// An option of `LPOS` adds its own to what the others give, in whatever order they stand.
pub proof fn law_lpos_options(
    a: Seq<Seq<u8>>,
    env: &ParseEnv,
    rank: Option<i64>,
    count: Option<usize>,
    maxlen: Option<usize>,
    w: Seq<u8>,
    x: Seq<u8>,
)
    requires
        called(a, "LPOS"@),
        makes(a, env, CommandView::Lpos { key: a[1], element: a[2], rank, count, maxlen }),
    ensures
        upper_word(w) == "RANK"@ ==> refuses(a.push(w), env, "syntax error"@),
        upper_word(w) == "RANK"@ && i64_of(x) is None ==>
            refuses(a.push(w).push(x), env, "value is not an integer or out of range"@),
        upper_word(w) == "RANK"@ && i64_of(x) is Some && i64_of(x)->0 == i64::MIN ==>
            refuses(a.push(w).push(x), env, "value is out of range"@),
        upper_word(w) == "RANK"@ && i64_of(x) is Some && i64_of(x)->0 != i64::MIN
            && i64_of(x)->0 == 0 ==>
            refuses(
                a.push(w).push(x),
                env,
                "RANK can't be zero: use 1 to start from the first match, 2 from the second ... or use negative to start from the end of the list"@,
            ),
        upper_word(w) == "RANK"@ && i64_of(x) is Some && i64_of(x)->0 != i64::MIN
            && i64_of(x)->0 != 0 ==>
            makes(
                a.push(w).push(x),
                env,
                CommandView::Lpos {
                    key: a[1],
                    element: a[2],
                    rank: Some(i64_of(x)->0),
                    count,
                    maxlen,
                },
            ),
        upper_word(w) == "COUNT"@ ==> refuses(a.push(w), env, "syntax error"@),
        upper_word(w) == "COUNT"@ && usize_of(x) is None ==>
            refuses(a.push(w).push(x), env, "value is not an integer or out of range"@),
        upper_word(w) == "COUNT"@ && usize_of(x) is Some ==>
            makes(
                a.push(w).push(x),
                env,
                CommandView::Lpos {
                    key: a[1],
                    element: a[2],
                    rank,
                    count: Some(usize_of(x)->0),
                    maxlen,
                },
            ),
        upper_word(w) == "MAXLEN"@ ==> refuses(a.push(w), env, "syntax error"@),
        upper_word(w) == "MAXLEN"@ && usize_of(x) is None ==>
            refuses(a.push(w).push(x), env, "value is not an integer or out of range"@),
        upper_word(w) == "MAXLEN"@ && usize_of(x) is Some ==>
            makes(
                a.push(w).push(x),
                env,
                CommandView::Lpos {
                    key: a[1],
                    element: a[2],
                    rank,
                    count,
                    maxlen: Some(usize_of(x)->0),
                },
            ),
        upper_word(w) != "RANK"@ && upper_word(w) != "COUNT"@ && upper_word(w) != "MAXLEN"@ ==>
            refuses(a.push(w), env, "syntax error"@),
{
    reveal(name_code);
    reveal_strlit("COUNT");
    reveal_strlit("MAXLEN");
    reveal_strlit("RANK");
    assert(name_code("COUNT"@) == 7400789012027705);
    assert(name_code("MAXLEN"@) == 8494284841095606);
    assert(name_code("RANK"@) == 9044038466310504);
    reveal_with_fuel(lpos_options, 2);
    assert(a.push(w) =~= a + seq![w]);
    lemma_lpos_options_step(a, env, rank, count, maxlen, seq![w]);
    lemma_tail(a, seq![w]);
    assert(a.push(w).push(x) =~= a + seq![w, x]);
    lemma_lpos_options_step(a, env, rank, count, maxlen, seq![w, x]);
    lemma_tail(a, seq![w, x]);
}

/// What words behind such words make.
#[verifier::spinoff_prover]
#[verifier::rlimit(40)]
proof fn lemma_lpos_options_step(
    a: Seq<Seq<u8>>,
    env: &ParseEnv,
    rank: Option<i64>,
    count: Option<usize>,
    maxlen: Option<usize>,
    more: Seq<Seq<u8>>,
)
    requires
        called(a, "LPOS"@),
        makes(a, env, CommandView::Lpos { key: a[1], element: a[2], rank, count, maxlen }),
    ensures
        verdict(a + more, env) == match lpos_options(
            (unnamed(a) + more),
            rank,
            count,
            maxlen,
            a.len() as int,
        ) {
            Err(e) => Err(e),
            Ok(r) => Ok(Some(CommandView::Lpos {
                key: a[1],
                element: a[2],
                rank: r.0,
                count: r.1,
                maxlen: r.2,
            })),
        },
{
    let b = a + more;
    reveal(verdict);
    lemma_called(a);
    lemma_called(b);
    assert(named_command_spec(upper_word(a[0]), unnamed(a), env) == lpos_spec(unnamed(a))) by {
        lemma_reach_listcmds(upper_word(a[0]), unnamed(a), env);
        lemma_listcmds_codes();
    }
    assert(named_command_spec(upper_word(b[0]), unnamed(b), env) == lpos_spec(unnamed(b))) by {
        lemma_reach_listcmds(upper_word(b[0]), unnamed(b), env);
        lemma_listcmds_codes();
    }
    assert(unnamed(b) =~= unnamed(a) + more);
    lemma_lpos_options_goes_on(unnamed(a), None, None, None, 3, more);
}

/// Words behind words are read with what the first made.
pub(super) proof fn lemma_lpos_options_goes_on(
    a: Seq<Seq<u8>>,
    rank: Option<i64>,
    count: Option<usize>,
    maxlen: Option<usize>,
    i: int,
    more: Seq<Seq<u8>>,
)
    requires
        0 <= i <= a.len(),
    ensures
        lpos_options(a, rank, count, maxlen, i) matches Ok(r) ==> lpos_options(
            a + more,
            rank,
            count,
            maxlen,
            i,
        ) == lpos_options(
            a + more,
            r.0,
            r.1,
            r.2,
            a.len() as int,
        ),
    decreases a.len() - i,
{
    let b = a + more;
    assert(i < a.len() ==> b[i] == a[i]);
    assert(i + 1 < a.len() ==> b[i + 1] == a[i + 1]);
    assert(i + 2 < a.len() ==> b[i + 2] == a[i + 2]);
    if i < a.len() {
        let opt = upper_word(a[i]);
        if opt == "RANK"@ {
            if a.len() - i > 1 {
                match i64_of(a[i + 1]) {
                    None => {},
                    Some(r) => {
                        if r != i64::MIN && r != 0 {
                            let rank = Some(r);
                            let i: int = i + 2;
                            lemma_lpos_options_goes_on(a, rank, count, maxlen, i, more);
                        }
                    },
                }
            }
        } else if opt == "COUNT"@ {
            if a.len() - i > 1 {
                match usize_of(a[i + 1]) {
                    None => {},
                    Some(c) => {
                        let count = Some(c);
                        let i: int = i + 2;
                        lemma_lpos_options_goes_on(a, rank, count, maxlen, i, more);
                    },
                }
            }
        } else if opt == "MAXLEN"@ {
            if a.len() - i > 1 {
                match usize_of(a[i + 1]) {
                    None => {},
                    Some(m) => {
                        let maxlen = Some(m);
                        let i: int = i + 2;
                        lemma_lpos_options_goes_on(a, rank, count, maxlen, i, more);
                    },
                }
            }
        }
    }
}

/// Without options.
pub proof fn law_sort_options_bare(a: Seq<Seq<u8>>, env: &ParseEnv)
    requires
        called(a, "SORT"@),
        a.len() == 2,
    ensures
        makes(
            a,
            env,
            CommandView::Sort { key: a[1], desc: false, alpha: false, store: None, limit: None },
        ),
{
    reveal(verdict);
    lemma_called(a);
    assert(named_command_spec(upper_word(a[0]), unnamed(a), env) == sort_spec(unnamed(a))) by {
        lemma_reach_listcmds(upper_word(a[0]), unnamed(a), env);
        lemma_listcmds_codes();
    }
}

/// An option of `SORT` adds its own to what the others give, in whatever order they stand.
pub proof fn law_sort_options(
    a: Seq<Seq<u8>>,
    env: &ParseEnv,
    desc: bool,
    alpha: bool,
    store: Option<Seq<u8>>,
    limit: Option<(i64, i64)>,
    w: Seq<u8>,
    x: Seq<u8>,
    y: Seq<u8>,
)
    requires
        called(a, "SORT"@),
        makes(a, env, CommandView::Sort { key: a[1], desc, alpha, store, limit }),
    ensures
        upper_word(w) == "ASC"@ ==>
            makes(
                a.push(w),
                env,
                CommandView::Sort { key: a[1], desc: false, alpha, store, limit },
            ),
        upper_word(w) == "DESC"@ ==>
            makes(a.push(w), env, CommandView::Sort { key: a[1], desc: true, alpha, store, limit }),
        upper_word(w) == "ALPHA"@ ==>
            makes(a.push(w), env, CommandView::Sort { key: a[1], desc, alpha: true, store, limit }),
        upper_word(w) == "STORE"@ ==> refuses(a.push(w), env, "syntax error"@),
        upper_word(w) == "STORE"@ ==>
            makes(
                a.push(w).push(x),
                env,
                CommandView::Sort { key: a[1], desc, alpha, store: Some(x), limit },
            ),
        upper_word(w) == "LIMIT"@ ==> refuses(a.push(w), env, "syntax error"@),
        upper_word(w) == "LIMIT"@ ==> refuses(a.push(w).push(x), env, "syntax error"@),
        upper_word(w) == "LIMIT"@ && i64_of(x) is None ==>
            refuses(a.push(w).push(x).push(y), env, "value is not an integer or out of range"@),
        upper_word(w) == "LIMIT"@ && i64_of(x) is Some && i64_of(y) is None ==>
            refuses(a.push(w).push(x).push(y), env, "value is not an integer or out of range"@),
        upper_word(w) == "LIMIT"@ && i64_of(x) is Some && i64_of(y) is Some ==>
            makes(
                a.push(w).push(x).push(y),
                env,
                CommandView::Sort {
                    key: a[1],
                    desc,
                    alpha,
                    store,
                    limit: Some((i64_of(x)->0, i64_of(y)->0)),
                },
            ),
        upper_word(w) != "ASC"@ && upper_word(w) != "DESC"@ && upper_word(w) != "ALPHA"@
            && upper_word(w) != "STORE"@ && upper_word(w) != "LIMIT"@ ==>
            makes(a.push(w), env, CommandView::Sort { key: a[1], desc, alpha, store, limit }),
{
    reveal(name_code);
    reveal_strlit("ALPHA");
    reveal_strlit("ASC");
    reveal_strlit("DESC");
    reveal_strlit("LIMIT");
    reveal_strlit("STORE");
    assert(name_code("ALPHA"@) == 7179588129800005);
    assert(name_code("ASC"@) == 7182473811232103);
    assert(name_code("DESC"@) == 7506426752698104);
    assert(name_code("LIMIT"@) == 8387764107911705);
    assert(name_code("STORE"@) == 9162161811105505);
    reveal_with_fuel(sort_options, 2);
    assert(a.push(w) =~= a + seq![w]);
    lemma_sort_options_step(a, env, desc, alpha, store, limit, seq![w]);
    lemma_tail(a, seq![w]);
    assert(a.push(w).push(x) =~= a + seq![w, x]);
    lemma_sort_options_step(a, env, desc, alpha, store, limit, seq![w, x]);
    lemma_tail(a, seq![w, x]);
    assert(a.push(w).push(x).push(y) =~= a + seq![w, x, y]);
    lemma_sort_options_step(a, env, desc, alpha, store, limit, seq![w, x, y]);
    lemma_tail(a, seq![w, x, y]);
}

/// What words behind such words make.
#[verifier::spinoff_prover]
#[verifier::rlimit(40)]
proof fn lemma_sort_options_step(
    a: Seq<Seq<u8>>,
    env: &ParseEnv,
    desc: bool,
    alpha: bool,
    store: Option<Seq<u8>>,
    limit: Option<(i64, i64)>,
    more: Seq<Seq<u8>>,
)
    requires
        called(a, "SORT"@),
        makes(a, env, CommandView::Sort { key: a[1], desc, alpha, store, limit }),
    ensures
        verdict(a + more, env) == match sort_options(
            (unnamed(a) + more),
            desc,
            alpha,
            store,
            limit,
            a.len() as int,
        ) {
            Err(e) => Err(e),
            Ok(r) => Ok(Some(CommandView::Sort {
                key: a[1],
                desc: r.0,
                alpha: r.1,
                store: r.2,
                limit: r.3,
            })),
        },
{
    let b = a + more;
    reveal(verdict);
    lemma_called(a);
    lemma_called(b);
    assert(named_command_spec(upper_word(a[0]), unnamed(a), env) == sort_spec(unnamed(a))) by {
        lemma_reach_listcmds(upper_word(a[0]), unnamed(a), env);
        lemma_listcmds_codes();
    }
    assert(named_command_spec(upper_word(b[0]), unnamed(b), env) == sort_spec(unnamed(b))) by {
        lemma_reach_listcmds(upper_word(b[0]), unnamed(b), env);
        lemma_listcmds_codes();
    }
    assert(unnamed(b) =~= unnamed(a) + more);
    lemma_sort_options_goes_on(unnamed(a), false, false, None, None, 2, more);
}

/// Words behind words are read with what the first made.
pub(super) proof fn lemma_sort_options_goes_on(
    a: Seq<Seq<u8>>,
    desc: bool,
    alpha: bool,
    store: Option<Seq<u8>>,
    limit: Option<(i64, i64)>,
    i: int,
    more: Seq<Seq<u8>>,
)
    requires
        0 <= i <= a.len(),
    ensures
        sort_options(a, desc, alpha, store, limit, i) matches Ok(r) ==> sort_options(
            a + more,
            desc,
            alpha,
            store,
            limit,
            i,
        ) == sort_options(
            a + more,
            r.0,
            r.1,
            r.2,
            r.3,
            a.len() as int,
        ),
    decreases a.len() - i,
{
    let b = a + more;
    assert(i < a.len() ==> b[i] == a[i]);
    assert(i + 1 < a.len() ==> b[i + 1] == a[i + 1]);
    assert(i + 2 < a.len() ==> b[i + 2] == a[i + 2]);
    if i < a.len() {
        let opt = upper_word(a[i]);
        if opt == "ASC"@ {
            let desc = false;
            let i: int = i + 1;
            lemma_sort_options_goes_on(a, desc, alpha, store, limit, i, more);
        } else if opt == "DESC"@ {
            let desc = true;
            let i: int = i + 1;
            lemma_sort_options_goes_on(a, desc, alpha, store, limit, i, more);
        } else if opt == "ALPHA"@ {
            let alpha = true;
            let i: int = i + 1;
            lemma_sort_options_goes_on(a, desc, alpha, store, limit, i, more);
        } else if opt == "STORE"@ {
            if a.len() - i > 1 {
                let store = Some(a[i + 1]);
                let i: int = i + 2;
                lemma_sort_options_goes_on(a, desc, alpha, store, limit, i, more);
            }
        } else if opt == "LIMIT"@ {
            if a.len() - i > 2 {
                match i64_of(a[i + 1]) {
                    None => {},
                    Some(offset) => {
                        match i64_of(a[i + 2]) {
                            None => {},
                            Some(count) => {
                                let limit = Some((offset, count));
                                let i: int = i + 3;
                                lemma_sort_options_goes_on(a, desc, alpha, store, limit, i, more);
                            },
                        }
                    },
                }
            }
        } else {
            let i: int = i + 1;
            lemma_sort_options_goes_on(a, desc, alpha, store, limit, i, more);
        }
    }
}

} // verus!
