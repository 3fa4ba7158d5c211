//! What the options of the commands on keys, expiry and values add.
use vstd::prelude::*;

use crate::build::named_command_spec;
use crate::build::keyspace::{restore_options, restore_spec, scan_options, scan_spec};
use crate::build::naming::{lemma_keyspace_codes, lemma_reach_keyspace, name_code};
use crate::command::CommandView;
use crate::numbers::{u64_of, usize_of};
use crate::readings::ParseEnv;
use crate::resp::unnamed;
use crate::text::upper_word;
use super::{called, lemma_called, lemma_tail, makes, refuses, verdict};

verus! {

/// Without options.
pub proof fn law_scan_options_bare(a: Seq<Seq<u8>>, env: &ParseEnv)
    requires
        called(a, "SCAN"@),
        a.len() == 2,
        u64_of(a[1]) is Some,
    ensures
        makes(a, env, CommandView::Scan { cursor: u64_of(a[1])->0, pattern: None, count: None }),
{
    reveal(verdict);
    lemma_called(a);
    assert(named_command_spec(upper_word(a[0]), unnamed(a), env) == scan_spec(unnamed(a))) by {
        lemma_reach_keyspace(upper_word(a[0]), unnamed(a), env);
        lemma_keyspace_codes();
    }
}

/// An option of `SCAN` adds its own to what the others give, in whatever order they stand.
pub proof fn law_scan_options(
    a: Seq<Seq<u8>>,
    env: &ParseEnv,
    pattern: Option<Seq<u8>>,
    count: Option<usize>,
    w: Seq<u8>,
    x: Seq<u8>,
)
    requires
        called(a, "SCAN"@),
        makes(a, env, CommandView::Scan { cursor: u64_of(a[1])->0, pattern, count }),
    ensures
        upper_word(w) == "MATCH"@ ==> refuses(a.push(w), env, "syntax error"@),
        upper_word(w) == "MATCH"@ ==>
            makes(
                a.push(w).push(x),
                env,
                CommandView::Scan { cursor: u64_of(a[1])->0, pattern: Some(x), count },
            ),
        upper_word(w) == "COUNT"@ ==> refuses(a.push(w), env, "syntax error"@),
        upper_word(w) == "COUNT"@ && usize_of(x) is None ==>
            refuses(a.push(w).push(x), env, "value is not an integer or out of range"@),
        upper_word(w) == "COUNT"@ && usize_of(x) is Some ==>
            makes(
                a.push(w).push(x),
                env,
                CommandView::Scan { cursor: u64_of(a[1])->0, pattern, count: Some(usize_of(x)->0) },
            ),
        upper_word(w) == "TYPE"@ ==> refuses(a.push(w), env, "syntax error"@),
        upper_word(w) == "TYPE"@ ==>
            makes(
                a.push(w).push(x),
                env,
                CommandView::Scan { cursor: u64_of(a[1])->0, pattern, count },
            ),
        upper_word(w) != "MATCH"@ && upper_word(w) != "COUNT"@ && upper_word(w) != "TYPE"@ ==>
            refuses(a.push(w), env, "syntax error"@),
{
    reveal(name_code);
    reveal_strlit("COUNT");
    reveal_strlit("MATCH");
    reveal_strlit("TYPE");
    assert(name_code("COUNT"@) == 7400789012027705);
    assert(name_code("MATCH"@) == 8494269230370005);
    assert(name_code("TYPE"@) == 9274238647100104);
    reveal_with_fuel(scan_options, 2);
    assert(a.push(w) =~= a + seq![w]);
    lemma_scan_options_step(a, env, pattern, count, seq![w]);
    lemma_tail(a, seq![w]);
    assert(a.push(w).push(x) =~= a + seq![w, x]);
    lemma_scan_options_step(a, env, pattern, count, seq![w, x]);
    lemma_tail(a, seq![w, x]);
}

/// What words behind such words make.
#[verifier::spinoff_prover]
#[verifier::rlimit(40)]
proof fn lemma_scan_options_step(
    a: Seq<Seq<u8>>,
    env: &ParseEnv,
    pattern: Option<Seq<u8>>,
    count: Option<usize>,
    more: Seq<Seq<u8>>,
)
    requires
        called(a, "SCAN"@),
        makes(a, env, CommandView::Scan { cursor: u64_of(a[1])->0, pattern, count }),
    ensures
        verdict(a + more, env) == match scan_options(
            (unnamed(a) + more),
            pattern,
            count,
            a.len() as int,
        ) {
            Err(e) => Err(e),
            Ok(r) => Ok(Some(CommandView::Scan {
                cursor: u64_of(a[1])->0,
                pattern: r.0,
                count: r.1,
            })),
        },
{
    let b = a + more;
    reveal(verdict);
    lemma_called(a);
    lemma_called(b);
    assert(named_command_spec(upper_word(a[0]), unnamed(a), env) == scan_spec(unnamed(a))) by {
        lemma_reach_keyspace(upper_word(a[0]), unnamed(a), env);
        lemma_keyspace_codes();
    }
    assert(named_command_spec(upper_word(b[0]), unnamed(b), env) == scan_spec(unnamed(b))) by {
        lemma_reach_keyspace(upper_word(b[0]), unnamed(b), env);
        lemma_keyspace_codes();
    }
    assert(unnamed(b) =~= unnamed(a) + more);
    lemma_scan_options_goes_on(unnamed(a), None, None, 2, more);
}

/// Words behind words are read with what the first made.
pub(super) proof fn lemma_scan_options_goes_on(
    a: Seq<Seq<u8>>,
    pattern: Option<Seq<u8>>,
    count: Option<usize>,
    i: int,
    more: Seq<Seq<u8>>,
)
    requires
        0 <= i <= a.len(),
    ensures
        scan_options(a, pattern, count, i) matches Ok(r) ==> scan_options(a + more, pattern, count, i) == scan_options(
            a + more,
            r.0,
            r.1,
            a.len() as int,
        ),
    decreases a.len() - i,
{
    let b = a + more;
    assert(i < a.len() ==> b[i] == a[i]);
    assert(i + 1 < a.len() ==> b[i + 1] == a[i + 1]);
    assert(i + 2 < a.len() ==> b[i + 2] == a[i + 2]);
    if i < a.len() {
        let opt = upper_word(a[i]);
        if opt == "MATCH"@ {
            if a.len() - i > 1 {
                let pattern = Some(a[i + 1]);
                let i: int = i + 2;
                lemma_scan_options_goes_on(a, pattern, count, i, more);
            }
        } else if opt == "COUNT"@ {
            if a.len() - i > 1 {
                match usize_of(a[i + 1]) {
                    None => {},
                    Some(n) => {
                        let count = Some(n);
                        let i: int = i + 2;
                        lemma_scan_options_goes_on(a, pattern, count, i, more);
                    },
                }
            }
        } else if opt == "TYPE"@ {
            if a.len() - i > 1 {
                let i: int = i + 2;
                lemma_scan_options_goes_on(a, pattern, count, i, more);
            }
        }
    }
}

/// Without options.
pub proof fn law_restore_options_bare(a: Seq<Seq<u8>>, env: &ParseEnv)
    requires
        called(a, "RESTORE"@),
        a.len() == 4,
        u64_of(a[2]) is Some,
    ensures
        makes(
            a,
            env,
            CommandView::Restore {
                key: a[1],
                ttl_ms: u64_of(a[2])->0,
                serialized: a[3],
                replace: false,
                absttl: false,
            },
        ),
{
    reveal(verdict);
    lemma_called(a);
    assert(named_command_spec(upper_word(a[0]), unnamed(a), env) == restore_spec(unnamed(a))) by {
        lemma_reach_keyspace(upper_word(a[0]), unnamed(a), env);
        lemma_keyspace_codes();
    }
}

/// An option of `RESTORE` adds its own to what the others give, in whatever order they stand.
pub proof fn law_restore_options(
    a: Seq<Seq<u8>>,
    env: &ParseEnv,
    replace: bool,
    absttl: bool,
    w: Seq<u8>,
    x: Seq<u8>,
)
    requires
        called(a, "RESTORE"@),
        makes(
            a,
            env,
            CommandView::Restore {
                key: a[1],
                ttl_ms: u64_of(a[2])->0,
                serialized: a[3],
                replace,
                absttl,
            },
        ),
    ensures
        upper_word(w) == "REPLACE"@ ==>
            makes(
                a.push(w),
                env,
                CommandView::Restore {
                    key: a[1],
                    ttl_ms: u64_of(a[2])->0,
                    serialized: a[3],
                    replace: true,
                    absttl,
                },
            ),
        upper_word(w) == "ABSTTL"@ ==>
            makes(
                a.push(w),
                env,
                CommandView::Restore {
                    key: a[1],
                    ttl_ms: u64_of(a[2])->0,
                    serialized: a[3],
                    replace,
                    absttl: true,
                },
            ),
        upper_word(w) != "REPLACE"@ && upper_word(w) != "ABSTTL"@
            && (upper_word(w) == "IDLETIME"@ || upper_word(w) == "FREQ"@) ==>
            refuses(a.push(w), env, "syntax error"@),
        upper_word(w) != "REPLACE"@ && upper_word(w) != "ABSTTL"@
            && (upper_word(w) == "IDLETIME"@ || upper_word(w) == "FREQ"@) ==>
            makes(
                a.push(w).push(x),
                env,
                CommandView::Restore {
                    key: a[1],
                    ttl_ms: u64_of(a[2])->0,
                    serialized: a[3],
                    replace,
                    absttl,
                },
            ),
        upper_word(w) != "REPLACE"@ && upper_word(w) != "ABSTTL"@ && upper_word(w) != "IDLETIME"@
            && upper_word(w) != "FREQ"@ ==>
            refuses(a.push(w), env, "syntax error"@),
{
    reveal(name_code);
    reveal_strlit("ABSTTL");
    reveal_strlit("FREQ");
    reveal_strlit("IDLETIME");
    reveal_strlit("REPLACE");
    assert(name_code("ABSTTL"@) == 7175313793544406);
    assert(name_code("FREQ"@) == 7731936023483404);
    assert(name_code("IDLETIME"@) == 8055756903559308);
    assert(name_code("REPLACE"@) == 9045758569760107);
    reveal_with_fuel(restore_options, 2);
    assert(a.push(w) =~= a + seq![w]);
    lemma_restore_options_step(a, env, replace, absttl, seq![w]);
    lemma_tail(a, seq![w]);
    assert(a.push(w).push(x) =~= a + seq![w, x]);
    lemma_restore_options_step(a, env, replace, absttl, seq![w, x]);
    lemma_tail(a, seq![w, x]);
}

/// What words behind such words make.
#[verifier::spinoff_prover]
#[verifier::rlimit(40)]
proof fn lemma_restore_options_step(
    a: Seq<Seq<u8>>,
    env: &ParseEnv,
    replace: bool,
    absttl: bool,
    more: Seq<Seq<u8>>,
)
    requires
        called(a, "RESTORE"@),
        makes(
            a,
            env,
            CommandView::Restore {
                key: a[1],
                ttl_ms: u64_of(a[2])->0,
                serialized: a[3],
                replace,
                absttl,
            },
        ),
    ensures
        verdict(a + more, env) == match restore_options(
            (unnamed(a) + more),
            replace,
            absttl,
            a.len() as int,
        ) {
            Err(e) => Err(e),
            Ok(r) => Ok(Some(CommandView::Restore {
                key: a[1],
                ttl_ms: u64_of(a[2])->0,
                serialized: a[3],
                replace: r.0,
                absttl: r.1,
            })),
        },
{
    let b = a + more;
    reveal(verdict);
    lemma_called(a);
    lemma_called(b);
    assert(named_command_spec(upper_word(a[0]), unnamed(a), env) == restore_spec(unnamed(a))) by {
        lemma_reach_keyspace(upper_word(a[0]), unnamed(a), env);
        lemma_keyspace_codes();
    }
    assert(named_command_spec(upper_word(b[0]), unnamed(b), env) == restore_spec(unnamed(b))) by {
        lemma_reach_keyspace(upper_word(b[0]), unnamed(b), env);
        lemma_keyspace_codes();
    }
    assert(unnamed(b) =~= unnamed(a) + more);
    lemma_restore_options_goes_on(unnamed(a), false, false, 4, more);
}

/// Words behind words are read with what the first made.
pub(super) proof fn lemma_restore_options_goes_on(
    a: Seq<Seq<u8>>,
    replace: bool,
    absttl: bool,
    i: int,
    more: Seq<Seq<u8>>,
)
    requires
        0 <= i <= a.len(),
    ensures
        restore_options(a, replace, absttl, i) matches Ok(r) ==> restore_options(a + more, replace, absttl, i) == restore_options(
            a + more,
            r.0,
            r.1,
            a.len() as int,
        ),
    decreases a.len() - i,
{
    let b = a + more;
    assert(i < a.len() ==> b[i] == a[i]);
    assert(i + 1 < a.len() ==> b[i + 1] == a[i + 1]);
    assert(i + 2 < a.len() ==> b[i + 2] == a[i + 2]);
    if i < a.len() {
        let opt = upper_word(a[i]);
        if opt == "REPLACE"@ {
            let replace = true;
            let i: int = i + 1;
            lemma_restore_options_goes_on(a, replace, absttl, i, more);
        } else if opt == "ABSTTL"@ {
            let absttl = true;
            let i: int = i + 1;
            lemma_restore_options_goes_on(a, replace, absttl, i, more);
        } else if opt == "IDLETIME"@ || opt == "FREQ"@ {
            if a.len() - i > 1 {
                let i: int = i + 2;
                lemma_restore_options_goes_on(a, replace, absttl, i, more);
            }
        }
    }
}

} // verus!
