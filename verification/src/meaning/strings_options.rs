//! What the options of the commands on strings and on keys add.
use vstd::prelude::*;

use crate::build::named_command_spec;
use crate::build::naming::{lemma_reach_strings, lemma_strings_codes, name_code};
use crate::build::strings::{
    getex_options, getex_spec, lcs_options, lcs_spec, set_options, set_spec,
};
use crate::command::{CommandView, SetConditionView};
use crate::numbers::{i128_of, i64_of, u64_of};
use crate::readings::ParseEnv;
use crate::resp::unnamed;
use crate::text::upper_word;
use crate::time::{Duration, millis_to, span_to};
use super::{called, lemma_called, lemma_tail, makes, refuses, verdict};

verus! {

/// Without options.
pub proof fn law_getex_options_bare(a: Seq<Seq<u8>>, env: &ParseEnv)
    requires
        called(a, "GETEX"@),
        a.len() == 2,
    ensures
        makes(a, env, CommandView::Getex { key: a[1], expire_in: None, persist: false }),
{
    reveal(verdict);
    lemma_called(a);
    assert(named_command_spec(
        upper_word(a[0]),
        unnamed(a),
        env,
    ) == getex_spec(unnamed(a), env)) by {
        lemma_reach_strings(upper_word(a[0]), unnamed(a), env);
        lemma_strings_codes();
    }
}

/// An option of `GETEX` adds its own to what the others give, in whatever order they stand.
pub proof fn law_getex_options(
    a: Seq<Seq<u8>>,
    env: &ParseEnv,
    expire_in: Option<Duration>,
    persist: bool,
    w: Seq<u8>,
    x: Seq<u8>,
)
    requires
        called(a, "GETEX"@),
        makes(a, env, CommandView::Getex { key: a[1], expire_in, persist }),
    ensures
        upper_word(w) == "EX"@ ==> refuses(a.push(w), env, "syntax error"@),
        upper_word(w) == "EX"@ && u64_of(x) is None ==>
            refuses(a.push(w).push(x), env, "value is not an integer or out of range"@),
        upper_word(w) == "EX"@ && u64_of(x) is Some ==>
            makes(
                a.push(w).push(x),
                env,
                CommandView::Getex {
                    key: a[1],
                    expire_in: Some(Duration::of_secs(u64_of(x)->0)),
                    persist,
                },
            ),
        upper_word(w) == "PX"@ ==> refuses(a.push(w), env, "syntax error"@),
        upper_word(w) == "PX"@ && u64_of(x) is None ==>
            refuses(a.push(w).push(x), env, "value is not an integer or out of range"@),
        upper_word(w) == "PX"@ && u64_of(x) is Some ==>
            makes(
                a.push(w).push(x),
                env,
                CommandView::Getex {
                    key: a[1],
                    expire_in: Some(Duration::of_millis(u64_of(x)->0)),
                    persist,
                },
            ),
        upper_word(w) == "EXAT"@ ==> refuses(a.push(w), env, "syntax error"@),
        upper_word(w) == "EXAT"@ && u64_of(x) is None ==>
            refuses(a.push(w).push(x), env, "value is not an integer or out of range"@),
        upper_word(w) == "EXAT"@ && u64_of(x) is Some ==>
            makes(
                a.push(w).push(x),
                env,
                CommandView::Getex {
                    key: a[1],
                    expire_in: Some(span_to(u64_of(x)->0, (env.now_ms / 1000))),
                    persist,
                },
            ),
        upper_word(w) == "PXAT"@ ==> refuses(a.push(w), env, "syntax error"@),
        upper_word(w) == "PXAT"@ && u64_of(x) is None ==>
            refuses(a.push(w).push(x), env, "value is not an integer or out of range"@),
        upper_word(w) == "PXAT"@ && u64_of(x) is Some ==>
            makes(
                a.push(w).push(x),
                env,
                CommandView::Getex {
                    key: a[1],
                    expire_in: Some(millis_to(u64_of(x)->0, env.now_ms)),
                    persist,
                },
            ),
        upper_word(w) == "PERSIST"@ ==>
            makes(a.push(w), env, CommandView::Getex { key: a[1], expire_in, persist: true }),
        upper_word(w) != "EX"@ && upper_word(w) != "PX"@ && upper_word(w) != "EXAT"@
            && upper_word(w) != "PXAT"@ && upper_word(w) != "PERSIST"@ ==>
            refuses(a.push(w), env, "syntax error"@),
{
    reveal(name_code);
    reveal_strlit("EX");
    reveal_strlit("EXAT");
    reveal_strlit("PERSIST");
    reveal_strlit("PX");
    reveal_strlit("PXAT");
    assert(name_code("EX"@) == 7624425945625602);
    assert(name_code("EXAT"@) == 7624566874146404);
    assert(name_code("PERSIST"@) == 8825868093524107);
    assert(name_code("PX"@) == 8833888736460802);
    assert(name_code("PXAT"@) == 8834029664700004);
    reveal_with_fuel(getex_options, 2);
    assert(a.push(w) =~= a + seq![w]);
    lemma_getex_options_step(a, env, expire_in, persist, seq![w]);
    lemma_tail(a, seq![w]);
    assert(a.push(w).push(x) =~= a + seq![w, x]);
    lemma_getex_options_step(a, env, expire_in, persist, seq![w, x]);
    lemma_tail(a, seq![w, x]);
}

/// What words behind such words make.
#[verifier::spinoff_prover]
#[verifier::rlimit(40)]
proof fn lemma_getex_options_step(
    a: Seq<Seq<u8>>,
    env: &ParseEnv,
    expire_in: Option<Duration>,
    persist: bool,
    more: Seq<Seq<u8>>,
)
    requires
        called(a, "GETEX"@),
        makes(a, env, CommandView::Getex { key: a[1], expire_in, persist }),
    ensures
        verdict(a + more, env) == match getex_options(
            (unnamed(a) + more),
            env,
            expire_in,
            persist,
            a.len() as int,
        ) {
            Err(e) => Err(e),
            Ok(r) => Ok(Some(CommandView::Getex { key: a[1], expire_in: r.0, persist: r.1 })),
        },
{
    let b = a + more;
    reveal(verdict);
    lemma_called(a);
    lemma_called(b);
    assert(named_command_spec(
        upper_word(a[0]),
        unnamed(a),
        env,
    ) == getex_spec(unnamed(a), env)) by {
        lemma_reach_strings(upper_word(a[0]), unnamed(a), env);
        lemma_strings_codes();
    }
    assert(named_command_spec(
        upper_word(b[0]),
        unnamed(b),
        env,
    ) == getex_spec(unnamed(b), env)) by {
        lemma_reach_strings(upper_word(b[0]), unnamed(b), env);
        lemma_strings_codes();
    }
    assert(unnamed(b) =~= unnamed(a) + more);
    lemma_getex_options_goes_on(unnamed(a), env, None, false, 2, more);
}

/// Words behind words are read with what the first made.
pub(super) proof fn lemma_getex_options_goes_on(
    a: Seq<Seq<u8>>,
    env: &ParseEnv,
    expire_in: Option<Duration>,
    persist: bool,
    i: int,
    more: Seq<Seq<u8>>,
)
    requires
        0 <= i <= a.len(),
    ensures
        getex_options(a, env, expire_in, persist, i) matches Ok(r) ==> getex_options(
            a + more,
            env,
            expire_in,
            persist,
            i,
        ) == getex_options(
            a + more,
            env,
            r.0,
            r.1,
            a.len() as int,
        ),
    decreases a.len() - i,
{
    let b = a + more;
    assert(i < a.len() ==> b[i] == a[i]);
    assert(i + 1 < a.len() ==> b[i + 1] == a[i + 1]);
    assert(i + 2 < a.len() ==> b[i + 2] == a[i + 2]);
    if i < a.len() {
        let opt = upper_word(a[i]);
        if opt == "EX"@ {
            if a.len() - i > 1 {
                match u64_of(a[i + 1]) {
                    None => {},
                    Some(sec) => {
                        let expire_in = Some(Duration::of_secs(sec));
                        let i: int = i + 2;
                        lemma_getex_options_goes_on(a, env, expire_in, persist, i, more);
                    },
                }
            }
        } else if opt == "PX"@ {
            if a.len() - i > 1 {
                match u64_of(a[i + 1]) {
                    None => {},
                    Some(ms) => {
                        let expire_in = Some(Duration::of_millis(ms));
                        let i: int = i + 2;
                        lemma_getex_options_goes_on(a, env, expire_in, persist, i, more);
                    },
                }
            }
        } else if opt == "EXAT"@ {
            if a.len() - i > 1 {
                match u64_of(a[i + 1]) {
                    None => {},
                    Some(ts) => {
                        let expire_in = Some(span_to(ts, (env.now_ms / 1000)));
                        let i: int = i + 2;
                        lemma_getex_options_goes_on(a, env, expire_in, persist, i, more);
                    },
                }
            }
        } else if opt == "PXAT"@ {
            if a.len() - i > 1 {
                match u64_of(a[i + 1]) {
                    None => {},
                    Some(ts) => {
                        let expire_in = Some(millis_to(ts, env.now_ms));
                        let i: int = i + 2;
                        lemma_getex_options_goes_on(a, env, expire_in, persist, i, more);
                    },
                }
            }
        } else if opt == "PERSIST"@ {
            let persist = true;
            let i: int = i + 1;
            lemma_getex_options_goes_on(a, env, expire_in, persist, i, more);
        }
    }
}

/// Without options.
pub proof fn law_set_options_bare(a: Seq<Seq<u8>>, env: &ParseEnv)
    requires
        called(a, "SET"@) || called(a, "PUT"@),
        a.len() == 3,
    ensures
        makes(
            a,
            env,
            CommandView::SetKey {
                key: a[1],
                value: a[2],
                expire_in: None,
                condition: SetConditionView::Always,
                get: false,
                keepttl: false,
                past_expired: false,
            },
        ),
{
    reveal(verdict);
    lemma_called(a);
    assert(named_command_spec(upper_word(a[0]), unnamed(a), env) == set_spec(unnamed(a), env)) by {
        lemma_reach_strings(upper_word(a[0]), unnamed(a), env);
        lemma_strings_codes();
    }
}

/// An option of `SET` adds its own to what the others give, in whatever order they stand.
pub proof fn law_set_options(
    a: Seq<Seq<u8>>,
    env: &ParseEnv,
    expire_in: Option<Duration>,
    condition: SetConditionView,
    get: bool,
    keepttl: bool,
    past_expired: bool,
    w: Seq<u8>,
    x: Seq<u8>,
)
    requires
        called(a, "SET"@) || called(a, "PUT"@),
        makes(
            a,
            env,
            CommandView::SetKey {
                key: a[1],
                value: a[2],
                expire_in,
                condition,
                get,
                keepttl,
                past_expired,
            },
        ),
    ensures
        upper_word(w) == "NX"@ && condition != SetConditionView::Always ==>
            refuses(a.push(w), env, "syntax error"@),
        upper_word(w) == "NX"@ && condition == SetConditionView::Always ==>
            makes(
                a.push(w),
                env,
                CommandView::SetKey {
                    key: a[1],
                    value: a[2],
                    expire_in,
                    condition: SetConditionView::Nx,
                    get,
                    keepttl,
                    past_expired,
                },
            ),
        upper_word(w) == "XX"@ && condition != SetConditionView::Always ==>
            refuses(a.push(w), env, "syntax error"@),
        upper_word(w) == "XX"@ && condition == SetConditionView::Always ==>
            makes(
                a.push(w),
                env,
                CommandView::SetKey {
                    key: a[1],
                    value: a[2],
                    expire_in,
                    condition: SetConditionView::Xx,
                    get,
                    keepttl,
                    past_expired,
                },
            ),
        upper_word(w) == "IFEQ"@ ==> refuses(a.push(w), env, "syntax error"@),
        upper_word(w) == "IFEQ"@ && condition == SetConditionView::Always ==>
            makes(
                a.push(w).push(x),
                env,
                CommandView::SetKey {
                    key: a[1],
                    value: a[2],
                    expire_in,
                    condition: SetConditionView::Ifeq(x),
                    get,
                    keepttl,
                    past_expired,
                },
            ),
        upper_word(w) == "IFNE"@ ==> refuses(a.push(w), env, "syntax error"@),
        upper_word(w) == "IFNE"@ && condition == SetConditionView::Always ==>
            makes(
                a.push(w).push(x),
                env,
                CommandView::SetKey {
                    key: a[1],
                    value: a[2],
                    expire_in,
                    condition: SetConditionView::Ifne(x),
                    get,
                    keepttl,
                    past_expired,
                },
            ),
        upper_word(w) == "IFDEQ"@ ==> refuses(a.push(w), env, "syntax error"@),
        upper_word(w) == "IFDEQ"@ && condition == SetConditionView::Always ==>
            makes(
                a.push(w).push(x),
                env,
                CommandView::SetKey {
                    key: a[1],
                    value: a[2],
                    expire_in,
                    condition: SetConditionView::Ifdeq(x),
                    get,
                    keepttl,
                    past_expired,
                },
            ),
        upper_word(w) == "IFDNE"@ ==> refuses(a.push(w), env, "syntax error"@),
        upper_word(w) == "IFDNE"@ && condition == SetConditionView::Always ==>
            makes(
                a.push(w).push(x),
                env,
                CommandView::SetKey {
                    key: a[1],
                    value: a[2],
                    expire_in,
                    condition: SetConditionView::Ifdne(x),
                    get,
                    keepttl,
                    past_expired,
                },
            ),
        upper_word(w) == "GET"@ ==>
            makes(
                a.push(w),
                env,
                CommandView::SetKey {
                    key: a[1],
                    value: a[2],
                    expire_in,
                    condition,
                    get: true,
                    keepttl,
                    past_expired,
                },
            ),
        upper_word(w) == "KEEPTTL"@ && ((expire_in is Some || past_expired) || keepttl) ==>
            refuses(a.push(w), env, "syntax error"@),
        upper_word(w) == "KEEPTTL"@ && expire_in is None && !past_expired && !keepttl ==>
            makes(
                a.push(w),
                env,
                CommandView::SetKey {
                    key: a[1],
                    value: a[2],
                    expire_in,
                    condition,
                    get,
                    keepttl: true,
                    past_expired,
                },
            ),
        upper_word(w) == "EX"@ ==> refuses(a.push(w), env, "syntax error"@),
        upper_word(w) == "EX"@ && expire_in is None && !past_expired && !keepttl
            && i64_of(x) is Some && i64_of(x)->0 > 0 && i64_of(x)->0 <= 9223372036854775 ==>
            makes(
                a.push(w).push(x),
                env,
                CommandView::SetKey {
                    key: a[1],
                    value: a[2],
                    expire_in: Some(Duration::of_secs(i64_of(x)->0 as u64)),
                    condition,
                    get,
                    keepttl,
                    past_expired,
                },
            ),
        upper_word(w) == "PX"@ ==> refuses(a.push(w), env, "syntax error"@),
        upper_word(w) == "PX"@ && expire_in is None && !past_expired && !keepttl
            && i64_of(x) is Some && i64_of(x)->0 > 0
            && i64_of(x)->0 as i128 + env.now_ms as i128 <= 9223372036854775807 ==>
            makes(
                a.push(w).push(x),
                env,
                CommandView::SetKey {
                    key: a[1],
                    value: a[2],
                    expire_in: Some(Duration::of_millis(i64_of(x)->0 as u64)),
                    condition,
                    get,
                    keepttl,
                    past_expired,
                },
            ),
        upper_word(w) == "EXAT"@ ==> refuses(a.push(w), env, "syntax error"@),
        upper_word(w) == "EXAT"@ && expire_in is None && !past_expired && !keepttl
            && i64_of(x) is Some && i64_of(x)->0 > 0 && i64_of(x)->0 <= 9223372036854775
            && i64_of(x)->0 as u64 > (env.now_ms / 1000) ==>
            makes(
                a.push(w).push(x),
                env,
                CommandView::SetKey {
                    key: a[1],
                    value: a[2],
                    expire_in: Some(
                        Duration::of_secs((i64_of(x)->0 as u64 - (env.now_ms / 1000)) as u64),
                    ),
                    condition,
                    get,
                    keepttl,
                    past_expired,
                },
            ),
        upper_word(w) == "EXAT"@ && expire_in is None && !past_expired && !keepttl
            && i64_of(x) is Some && i64_of(x)->0 > 0 && i64_of(x)->0 <= 9223372036854775
            && i64_of(x)->0 as u64 <= (env.now_ms / 1000) ==>
            makes(
                a.push(w).push(x),
                env,
                CommandView::SetKey {
                    key: a[1],
                    value: a[2],
                    expire_in,
                    condition,
                    get,
                    keepttl,
                    past_expired: true,
                },
            ),
        upper_word(w) == "PXAT"@ ==> refuses(a.push(w), env, "syntax error"@),
        upper_word(w) == "PXAT"@ && expire_in is None && !past_expired && !keepttl
            && i128_of(x) is Some && i128_of(x)->0 > 0 && i128_of(x)->0 <= 9223372036854775807
            && i128_of(x)->0 as u64 > env.now_ms ==>
            makes(
                a.push(w).push(x),
                env,
                CommandView::SetKey {
                    key: a[1],
                    value: a[2],
                    expire_in: Some(
                        Duration::of_millis((i128_of(x)->0 as u64 - env.now_ms) as u64),
                    ),
                    condition,
                    get,
                    keepttl,
                    past_expired,
                },
            ),
        upper_word(w) == "PXAT"@ && expire_in is None && !past_expired && !keepttl
            && i128_of(x) is Some && i128_of(x)->0 > 0 && i128_of(x)->0 <= 9223372036854775807
            && i128_of(x)->0 as u64 <= env.now_ms ==>
            makes(
                a.push(w).push(x),
                env,
                CommandView::SetKey {
                    key: a[1],
                    value: a[2],
                    expire_in,
                    condition,
                    get,
                    keepttl,
                    past_expired: true,
                },
            ),
        upper_word(w) != "NX"@ && upper_word(w) != "XX"@ && upper_word(w) != "IFEQ"@
            && upper_word(w) != "IFNE"@ && upper_word(w) != "IFDEQ"@ && upper_word(w) != "IFDNE"@
            && upper_word(w) != "GET"@ && upper_word(w) != "KEEPTTL"@ && upper_word(w) != "EX"@
            && upper_word(w) != "PX"@ && upper_word(w) != "EXAT"@ && upper_word(w) != "PXAT"@ ==>
            refuses(a.push(w), env, "syntax error"@),
{
    reveal(name_code);
    reveal_strlit("EX");
    reveal_strlit("EXAT");
    reveal_strlit("GET");
    reveal_strlit("IFDEQ");
    reveal_strlit("IFDNE");
    reveal_strlit("IFEQ");
    reveal_strlit("IFNE");
    reveal_strlit("KEEPTTL");
    reveal_strlit("NX");
    reveal_strlit("PX");
    reveal_strlit("PXAT");
    reveal_strlit("XX");
    assert(name_code("EX"@) == 7624425945625602);
    assert(name_code("EXAT"@) == 7624566874146404);
    assert(name_code("GET"@) == 7836167833325503);
    assert(name_code("IFDEQ"@) == 8056615418400405);
    assert(name_code("IFDNE"@) == 8056630518125205);
    assert(name_code("IFEQ"@) == 8056635551059804);
    assert(name_code("IFNE"@) == 8056615418631004);
    assert(name_code("KEEPTTL"@) == 8276107253051607);
    assert(name_code("NX"@) == 8613986410854402);
    assert(name_code("PX"@) == 8833888736460802);
    assert(name_code("PXAT"@) == 8834029664700004);
    assert(name_code("XX"@) == 9713498038886402);
    reveal_with_fuel(set_options, 2);
    assert(a.push(w) =~= a + seq![w]);
    lemma_set_options_step(a, env, expire_in, condition, get, keepttl, past_expired, seq![w]);
    lemma_tail(a, seq![w]);
    assert(a.push(w).push(x) =~= a + seq![w, x]);
    lemma_set_options_step(a, env, expire_in, condition, get, keepttl, past_expired, seq![w, x]);
    lemma_tail(a, seq![w, x]);
}

/// What words behind such words make.
#[verifier::spinoff_prover]
#[verifier::rlimit(40)]
proof fn lemma_set_options_step(
    a: Seq<Seq<u8>>,
    env: &ParseEnv,
    expire_in: Option<Duration>,
    condition: SetConditionView,
    get: bool,
    keepttl: bool,
    past_expired: bool,
    more: Seq<Seq<u8>>,
)
    requires
        called(a, "SET"@) || called(a, "PUT"@),
        makes(
            a,
            env,
            CommandView::SetKey {
                key: a[1],
                value: a[2],
                expire_in,
                condition,
                get,
                keepttl,
                past_expired,
            },
        ),
    ensures
        verdict(a + more, env) == match set_options(
            (unnamed(a) + more),
            env,
            expire_in,
            condition,
            (condition != SetConditionView::Always),
            get,
            keepttl,
            past_expired,
            (expire_in is Some || past_expired),
            a.len() as int,
        ) {
            Err(e) => Err(e),
            Ok(r) => Ok(Some(CommandView::SetKey {
                key: a[1],
                value: a[2],
                expire_in: r.0,
                condition: r.1,
                get: r.2,
                keepttl: r.3,
                past_expired: r.4,
            })),
        },
{
    let b = a + more;
    reveal(verdict);
    lemma_called(a);
    lemma_called(b);
    assert(named_command_spec(upper_word(a[0]), unnamed(a), env) == set_spec(unnamed(a), env)) by {
        lemma_reach_strings(upper_word(a[0]), unnamed(a), env);
        lemma_strings_codes();
    }
    assert(named_command_spec(upper_word(b[0]), unnamed(b), env) == set_spec(unnamed(b), env)) by {
        lemma_reach_strings(upper_word(b[0]), unnamed(b), env);
        lemma_strings_codes();
    }
    assert(unnamed(b) =~= unnamed(a) + more);
    lemma_set_options_goes_on(
        unnamed(a),
        env,
        None,
        SetConditionView::Always,
        false,
        false,
        false,
        false,
        false,
        3,
        more,
    );
}

/// Words behind words are read with what the first made.
pub(super) proof fn lemma_set_options_goes_on(
    a: Seq<Seq<u8>>,
    env: &ParseEnv,
    expire_in: Option<Duration>,
    condition: SetConditionView,
    conditioned: bool,
    get: bool,
    keepttl: bool,
    past_expired: bool,
    has_expiry: bool,
    i: int,
    more: Seq<Seq<u8>>,
)
    requires
        0 <= i <= a.len(),
        conditioned == (condition != SetConditionView::Always),
        has_expiry == (expire_in is Some || past_expired),
    ensures
        set_options(
            a,
            env,
            expire_in,
            condition,
            conditioned,
            get,
            keepttl,
            past_expired,
            has_expiry,
            i,
        ) matches Ok(r) ==> set_options(
            a + more,
            env,
            expire_in,
            condition,
            conditioned,
            get,
            keepttl,
            past_expired,
            has_expiry,
            i,
        ) == set_options(a + more, env, r.0, r.1, r.1 != SetConditionView::Always, r.2, r.3, r.4, r.0 is Some || r.4, a.len() as int),
    decreases a.len() - i,
{
    let b = a + more;
    assert(i < a.len() ==> b[i] == a[i]);
    assert(i + 1 < a.len() ==> b[i + 1] == a[i + 1]);
    assert(i + 2 < a.len() ==> b[i + 2] == a[i + 2]);
    if i < a.len() {
        let opt = upper_word(a[i]);
        if opt == "NX"@ {
            if !conditioned {
                let condition = SetConditionView::Nx;
                let conditioned = true;
                let i: int = i + 1;
                lemma_set_options_goes_on(
                    a,
                    env,
                    expire_in,
                    condition,
                    conditioned,
                    get,
                    keepttl,
                    past_expired,
                    has_expiry,
                    i, more);
            }
        } else if opt == "XX"@ {
            if !conditioned {
                let condition = SetConditionView::Xx;
                let conditioned = true;
                let i: int = i + 1;
                lemma_set_options_goes_on(
                    a,
                    env,
                    expire_in,
                    condition,
                    conditioned,
                    get,
                    keepttl,
                    past_expired,
                    has_expiry,
                    i, more);
            }
        } else if opt == "IFEQ"@ {
            if !conditioned && a.len() - i > 1 {
                let condition = SetConditionView::Ifeq(a[i + 1]);
                let conditioned = true;
                let i: int = i + 2;
                lemma_set_options_goes_on(
                    a,
                    env,
                    expire_in,
                    condition,
                    conditioned,
                    get,
                    keepttl,
                    past_expired,
                    has_expiry,
                    i, more);
            }
        } else if opt == "IFNE"@ {
            if !conditioned && a.len() - i > 1 {
                let condition = SetConditionView::Ifne(a[i + 1]);
                let conditioned = true;
                let i: int = i + 2;
                lemma_set_options_goes_on(
                    a,
                    env,
                    expire_in,
                    condition,
                    conditioned,
                    get,
                    keepttl,
                    past_expired,
                    has_expiry,
                    i, more);
            }
        } else if opt == "IFDEQ"@ {
            if !conditioned && a.len() - i > 1 {
                let condition = SetConditionView::Ifdeq(a[i + 1]);
                let conditioned = true;
                let i: int = i + 2;
                lemma_set_options_goes_on(
                    a,
                    env,
                    expire_in,
                    condition,
                    conditioned,
                    get,
                    keepttl,
                    past_expired,
                    has_expiry,
                    i, more);
            }
        } else if opt == "IFDNE"@ {
            if !conditioned && a.len() - i > 1 {
                let condition = SetConditionView::Ifdne(a[i + 1]);
                let conditioned = true;
                let i: int = i + 2;
                lemma_set_options_goes_on(
                    a,
                    env,
                    expire_in,
                    condition,
                    conditioned,
                    get,
                    keepttl,
                    past_expired,
                    has_expiry,
                    i, more);
            }
        } else if opt == "GET"@ {
            let get = true;
            let i: int = i + 1;
            lemma_set_options_goes_on(
                a,
                env,
                expire_in,
                condition,
                conditioned,
                get,
                keepttl,
                past_expired,
                has_expiry,
                i, more);
        } else if opt == "KEEPTTL"@ {
            if !has_expiry && !keepttl {
                let keepttl = true;
                let i: int = i + 1;
                lemma_set_options_goes_on(
                    a,
                    env,
                    expire_in,
                    condition,
                    conditioned,
                    get,
                    keepttl,
                    past_expired,
                    has_expiry,
                    i, more);
            }
        } else if opt == "EX"@ {
            if !has_expiry && !keepttl && a.len() - i > 1 {
                match i64_of(a[i + 1]) {
                    None => {},
                    Some(secs) => {
                        if secs > 0 && secs <= 9223372036854775 {
                            let expire_in = Some(Duration::of_secs(secs as u64));
                            let has_expiry = true;
                            let i: int = i + 2;
                            lemma_set_options_goes_on(
                                a,
                                env,
                                expire_in,
                                condition,
                                conditioned,
                                get,
                                keepttl,
                                past_expired,
                                has_expiry,
                                i, more);
                        }
                    },
                }
            }
        } else if opt == "PX"@ {
            if !has_expiry && !keepttl && a.len() - i > 1 {
                match i64_of(a[i + 1]) {
                    None => {},
                    Some(ms) => {
                        if ms > 0 && ms as i128 + env.now_ms as i128 <= 9223372036854775807 {
                            let expire_in = Some(Duration::of_millis(ms as u64));
                            let has_expiry = true;
                            let i: int = i + 2;
                            lemma_set_options_goes_on(
                                a,
                                env,
                                expire_in,
                                condition,
                                conditioned,
                                get,
                                keepttl,
                                past_expired,
                                has_expiry,
                                i, more);
                        }
                    },
                }
            }
        } else if opt == "EXAT"@ {
            if !has_expiry && !keepttl && a.len() - i > 1 {
                match i64_of(a[i + 1]) {
                    None => {},
                    Some(ts) => {
                        if ts > 0 && ts <= 9223372036854775 {
                            let (expire_in, past_expired) = if ts as u64 > (env.now_ms / 1000) {
                                let expire_in = Some(Duration::of_secs((ts as u64 - (env.now_ms / 1000)) as u64));
                                (expire_in, past_expired)
                            } else {
                                let past_expired = true;
                                (expire_in, past_expired)
                            };
                            let has_expiry = true;
                            let i: int = i + 2;
                            lemma_set_options_goes_on(
                                a,
                                env,
                                expire_in,
                                condition,
                                conditioned,
                                get,
                                keepttl,
                                past_expired,
                                has_expiry,
                                i, more);
                        }
                    },
                }
            }
        } else if opt == "PXAT"@ {
            if !has_expiry && !keepttl && a.len() - i > 1 {
                match i128_of(a[i + 1]) {
                    None => {},
                    Some(ts) => {
                        if ts > 0 && ts <= 9223372036854775807 {
                            let (expire_in, past_expired) = if ts as u64 > env.now_ms {
                                let expire_in = Some(Duration::of_millis((ts as u64 - env.now_ms) as u64));
                                (expire_in, past_expired)
                            } else {
                                let past_expired = true;
                                (expire_in, past_expired)
                            };
                            let has_expiry = true;
                            let i: int = i + 2;
                            lemma_set_options_goes_on(
                                a,
                                env,
                                expire_in,
                                condition,
                                conditioned,
                                get,
                                keepttl,
                                past_expired,
                                has_expiry,
                                i, more);
                        }
                    },
                }
            }
        }
    }
}

/// Without options.
pub proof fn law_lcs_options_bare(a: Seq<Seq<u8>>, env: &ParseEnv)
    requires
        called(a, "LCS"@),
        a.len() == 3,
    ensures
        makes(
            a,
            env,
            CommandView::Lcs {
                key1: a[1],
                key2: a[2],
                len_only: false,
                idx: false,
                min_match_len: 0,
                with_match_len: false,
            },
        ),
{
    reveal(verdict);
    lemma_called(a);
    assert(named_command_spec(upper_word(a[0]), unnamed(a), env) == lcs_spec(unnamed(a))) by {
        lemma_reach_strings(upper_word(a[0]), unnamed(a), env);
        lemma_strings_codes();
    }
}

/// An option of `LCS` adds its own to what the others give, in whatever order they stand.
pub proof fn law_lcs_options(
    a: Seq<Seq<u8>>,
    env: &ParseEnv,
    len_only: bool,
    idx: bool,
    min_match_len: usize,
    with_match_len: bool,
    w: Seq<u8>,
    x: Seq<u8>,
)
    requires
        called(a, "LCS"@),
        makes(
            a,
            env,
            CommandView::Lcs {
                key1: a[1],
                key2: a[2],
                len_only,
                idx,
                min_match_len,
                with_match_len,
            },
        ),
    ensures
        upper_word(w) == "LEN"@ && idx ==>
            refuses(
                a.push(w),
                env,
                "If you want both the length and indexes, please just use IDX."@,
            ),
        upper_word(w) == "LEN"@ && !idx ==>
            makes(
                a.push(w),
                env,
                CommandView::Lcs {
                    key1: a[1],
                    key2: a[2],
                    len_only: true,
                    idx,
                    min_match_len,
                    with_match_len,
                },
            ),
        upper_word(w) == "IDX"@ && len_only ==>
            refuses(
                a.push(w),
                env,
                "If you want both the length and indexes, please just use IDX."@,
            ),
        upper_word(w) == "IDX"@ && !len_only ==>
            makes(
                a.push(w),
                env,
                CommandView::Lcs {
                    key1: a[1],
                    key2: a[2],
                    len_only,
                    idx: true,
                    min_match_len,
                    with_match_len,
                },
            ),
        upper_word(w) == "WITHMATCHLEN"@ && len_only && idx ==>
            refuses(
                a.push(w),
                env,
                "If you want both the length and indexes, please just use IDX."@,
            ),
        upper_word(w) == "WITHMATCHLEN"@ && (!len_only || !idx) ==>
            makes(
                a.push(w),
                env,
                CommandView::Lcs {
                    key1: a[1],
                    key2: a[2],
                    len_only,
                    idx,
                    min_match_len,
                    with_match_len: true,
                },
            ),
        upper_word(w) == "MINMATCHLEN"@ ==> refuses(a.push(w), env, "syntax error"@),
        upper_word(w) == "MINMATCHLEN"@ && i64_of(x) is None ==>
            refuses(a.push(w).push(x), env, "value is not an integer or out of range"@),
        upper_word(w) == "MINMATCHLEN"@ && i64_of(x) is Some && i64_of(x)->0 < 0 ==>
            refuses(a.push(w).push(x), env, "value is not an integer or out of range"@),
        upper_word(w) == "MINMATCHLEN"@ && i64_of(x) is Some && i64_of(x)->0 >= 0 && len_only
            && idx ==>
            refuses(
                a.push(w).push(x),
                env,
                "If you want both the length and indexes, please just use IDX."@,
            ),
        upper_word(w) == "MINMATCHLEN"@ && i64_of(x) is Some && i64_of(x)->0 >= 0
            && (!len_only || !idx) ==>
            makes(
                a.push(w).push(x),
                env,
                CommandView::Lcs {
                    key1: a[1],
                    key2: a[2],
                    len_only,
                    idx,
                    min_match_len: (i64_of(x)->0 as usize),
                    with_match_len,
                },
            ),
        upper_word(w) != "LEN"@ && upper_word(w) != "IDX"@ && upper_word(w) != "WITHMATCHLEN"@
            && upper_word(w) != "MINMATCHLEN"@ ==>
            refuses(a.push(w), env, "syntax error"@),
{
    reveal(name_code);
    reveal_strlit("IDX");
    reveal_strlit("LEN");
    reveal_strlit("MINMATCHLEN");
    reveal_strlit("WITHMATCHLEN");
    assert(name_code("IDX"@) == 8055640662125703);
    assert(name_code("LEN"@) == 8385923647214003);
    assert(name_code("MINMATCHLEN"@) == 8497722531975611);
    assert(name_code("WITHMATCHLEN"@) == 9597225646625212);
    reveal_with_fuel(lcs_options, 2);
    assert(a.push(w) =~= a + seq![w]);
    lemma_lcs_options_step(a, env, len_only, idx, min_match_len, with_match_len, seq![w]);
    lemma_tail(a, seq![w]);
    assert(a.push(w).push(x) =~= a + seq![w, x]);
    lemma_lcs_options_step(a, env, len_only, idx, min_match_len, with_match_len, seq![w, x]);
    lemma_tail(a, seq![w, x]);
}

/// What words behind such words make.
#[verifier::spinoff_prover]
#[verifier::rlimit(40)]
proof fn lemma_lcs_options_step(
    a: Seq<Seq<u8>>,
    env: &ParseEnv,
    len_only: bool,
    idx: bool,
    min_match_len: usize,
    with_match_len: bool,
    more: Seq<Seq<u8>>,
)
    requires
        called(a, "LCS"@),
        makes(
            a,
            env,
            CommandView::Lcs {
                key1: a[1],
                key2: a[2],
                len_only,
                idx,
                min_match_len,
                with_match_len,
            },
        ),
    ensures
        verdict(a + more, env) == match lcs_options(
            (unnamed(a) + more),
            len_only,
            idx,
            min_match_len,
            with_match_len,
            a.len() as int,
        ) {
            Err(e) => Err(e),
            Ok(r) => if r.0 && r.1 { Err("If you want both the length and indexes, please just use IDX."@) } else { Ok(Some(CommandView::Lcs {
                key1: a[1],
                key2: a[2],
                len_only: r.0,
                idx: r.1,
                min_match_len: r.2,
                with_match_len: r.3,
            })) },
        },
{
    let b = a + more;
    reveal(verdict);
    lemma_called(a);
    lemma_called(b);
    assert(named_command_spec(upper_word(a[0]), unnamed(a), env) == lcs_spec(unnamed(a))) by {
        lemma_reach_strings(upper_word(a[0]), unnamed(a), env);
        lemma_strings_codes();
    }
    assert(named_command_spec(upper_word(b[0]), unnamed(b), env) == lcs_spec(unnamed(b))) by {
        lemma_reach_strings(upper_word(b[0]), unnamed(b), env);
        lemma_strings_codes();
    }
    assert(unnamed(b) =~= unnamed(a) + more);
    lemma_lcs_options_goes_on(unnamed(a), false, false, 0, false, 3, more);
}

/// Words behind words are read with what the first made.
pub(super) proof fn lemma_lcs_options_goes_on(
    a: Seq<Seq<u8>>,
    len_only: bool,
    idx: bool,
    min_match_len: usize,
    with_match_len: bool,
    i: int,
    more: Seq<Seq<u8>>,
)
    requires
        0 <= i <= a.len(),
    ensures
        lcs_options(
            a,
            len_only,
            idx,
            min_match_len,
            with_match_len,
            i,
        ) matches Ok(r) ==> lcs_options(
            a + more,
            len_only,
            idx,
            min_match_len,
            with_match_len,
            i,
        ) == lcs_options(a + more, r.0, r.1, r.2, r.3, a.len() as int),
    decreases a.len() - i,
{
    let b = a + more;
    assert(i < a.len() ==> b[i] == a[i]);
    assert(i + 1 < a.len() ==> b[i + 1] == a[i + 1]);
    assert(i + 2 < a.len() ==> b[i + 2] == a[i + 2]);
    if i < a.len() {
        let opt = upper_word(a[i]);
        if opt == "LEN"@ {
            let len_only = true;
            let i: int = i + 1;
            lemma_lcs_options_goes_on(a, len_only, idx, min_match_len, with_match_len, i, more);
        } else if opt == "IDX"@ {
            let idx = true;
            let i: int = i + 1;
            lemma_lcs_options_goes_on(a, len_only, idx, min_match_len, with_match_len, i, more);
        } else if opt == "WITHMATCHLEN"@ {
            let with_match_len = true;
            let i: int = i + 1;
            lemma_lcs_options_goes_on(a, len_only, idx, min_match_len, with_match_len, i, more);
        } else if opt == "MINMATCHLEN"@ {
            if a.len() - i > 1 {
                match i64_of(a[i + 1]) {
                    None => {},
                    Some(m) => {
                        if m >= 0 {
                            let min_match_len: usize = m as usize;
                            let i: int = i + 2;
                            lemma_lcs_options_goes_on(
                                a,
                                len_only,
                                idx,
                                min_match_len,
                                with_match_len,
                                i,
                                more,
                            );
                        }
                    },
                }
            }
        }
    }
}

} // verus!
