//! Which options of a command go together.
use vstd::prelude::*;

use crate::command::SetConditionView;
use crate::numbers::{i128_of, i64_of, u128_of, u64_of};
use crate::operands::{Double, MsetexCondition, MsetexExpiry, ZAddFlags, ZRangeOptsView};
use crate::readings::{redis_double_of, ParseEnv};
use crate::text::{upper_utf8_word, upper_word};
use crate::time::{span_to, Duration};
use super::strings::{lcs_spec, msetex_options, msetex_spec, set_options, set_spec};
use super::zsets::{
    aggregate_of, combine_options, combine_weights, lemma_combine_weights, zadd_elements,
    zadd_options, zadd_spec, zrange_options, zrange_spec, zrangestore_options, zrangestore_spec,
    Combination,
};

verus! {

/// An expiry excludes keeping the one that there is, and is not past where there is a time left.
pub open spec fn expires_one_way(
    expire_in: Option<Duration>,
    keepttl: bool,
    past_expired: bool,
) -> bool {
    &&& keepttl ==> expire_in is None && !past_expired
    &&& past_expired ==> expire_in is None
}

/// The options of `SET` keep to one expiry.
proof fn lemma_set_options(
    a: Seq<Seq<u8>>,
    env: &ParseEnv,
    expire_in: Option<Duration>,
    condition: SetConditionView,
    conditioned: bool,
    get: bool,
    keepttl: bool,
    past_expired: bool,
    has_expiry: bool,
    i: int,
)
    requires
        expires_one_way(expire_in, keepttl, past_expired),
        expire_in is Some || past_expired ==> has_expiry,
        keepttl ==> !has_expiry,
    ensures
        set_options(
            a,
            env,
            expire_in,
            condition,
            conditioned,
            get,
            keepttl,
            past_expired,
            has_expiry,
            i,
        ) matches Ok(r) ==> expires_one_way(r.0, r.3, r.4),
    decreases a.len() - i,
{
    if i < a.len() {
        let opt = upper_word(a[i]);
        if opt == "NX"@ {
            if !conditioned {
                let condition = SetConditionView::Nx;
                let conditioned = true;
                let i: int = i + 1;
                lemma_set_options(
                    a,
                    env,
                    expire_in,
                    condition,
                    conditioned,
                    get,
                    keepttl,
                    past_expired,
                    has_expiry,
                    i,
                );
            }
        } else if opt == "XX"@ {
            if !conditioned {
                let condition = SetConditionView::Xx;
                let conditioned = true;
                let i: int = i + 1;
                lemma_set_options(
                    a,
                    env,
                    expire_in,
                    condition,
                    conditioned,
                    get,
                    keepttl,
                    past_expired,
                    has_expiry,
                    i,
                );
            }
        } else if opt == "IFEQ"@ {
            if !conditioned && a.len() - i > 1 {
                let condition = SetConditionView::Ifeq(a[i + 1]);
                let conditioned = true;
                let i: int = i + 2;
                lemma_set_options(
                    a,
                    env,
                    expire_in,
                    condition,
                    conditioned,
                    get,
                    keepttl,
                    past_expired,
                    has_expiry,
                    i,
                );
            }
        } else if opt == "IFNE"@ {
            if !conditioned && a.len() - i > 1 {
                let condition = SetConditionView::Ifne(a[i + 1]);
                let conditioned = true;
                let i: int = i + 2;
                lemma_set_options(
                    a,
                    env,
                    expire_in,
                    condition,
                    conditioned,
                    get,
                    keepttl,
                    past_expired,
                    has_expiry,
                    i,
                );
            }
        } else if opt == "IFDEQ"@ {
            if !conditioned && a.len() - i > 1 {
                let condition = SetConditionView::Ifdeq(a[i + 1]);
                let conditioned = true;
                let i: int = i + 2;
                lemma_set_options(
                    a,
                    env,
                    expire_in,
                    condition,
                    conditioned,
                    get,
                    keepttl,
                    past_expired,
                    has_expiry,
                    i,
                );
            }
        } else if opt == "IFDNE"@ {
            if !conditioned && a.len() - i > 1 {
                let condition = SetConditionView::Ifdne(a[i + 1]);
                let conditioned = true;
                let i: int = i + 2;
                lemma_set_options(
                    a,
                    env,
                    expire_in,
                    condition,
                    conditioned,
                    get,
                    keepttl,
                    past_expired,
                    has_expiry,
                    i,
                );
            }
        } else if opt == "GET"@ {
            let get = true;
            let i: int = i + 1;
            lemma_set_options(
                a,
                env,
                expire_in,
                condition,
                conditioned,
                get,
                keepttl,
                past_expired,
                has_expiry,
                i,
            );
        } else if opt == "KEEPTTL"@ {
            if !has_expiry && !keepttl {
                let keepttl = true;
                let i: int = i + 1;
                lemma_set_options(
                    a,
                    env,
                    expire_in,
                    condition,
                    conditioned,
                    get,
                    keepttl,
                    past_expired,
                    has_expiry,
                    i,
                );
            }
        } else if opt == "EX"@ {
            if !has_expiry && !keepttl && a.len() - i > 1 {
                match i64_of(a[i + 1]) {
                    None => {},
                    Some(secs) => {
                        if secs > 0 && secs <= 9223372036854775 {
                            let expire_in = Some(Duration::of_secs(secs as u64));
                            let has_expiry = true;
                            let i: int = i + 2;
                            lemma_set_options(
                                a,
                                env,
                                expire_in,
                                condition,
                                conditioned,
                                get,
                                keepttl,
                                past_expired,
                                has_expiry,
                                i,
                            );
                        }
                    },
                }
            }
        } else if opt == "PX"@ {
            if !has_expiry && !keepttl && a.len() - i > 1 {
                match i64_of(a[i + 1]) {
                    None => {},
                    Some(ms) => {
                        if ms > 0 && ms as i128 + env.now_ms as i128 <= 9223372036854775807 {
                            let expire_in = Some(Duration::of_millis(ms as u64));
                            let has_expiry = true;
                            let i: int = i + 2;
                            lemma_set_options(
                                a,
                                env,
                                expire_in,
                                condition,
                                conditioned,
                                get,
                                keepttl,
                                past_expired,
                                has_expiry,
                                i,
                            );
                        }
                    },
                }
            }
        } else if opt == "EXAT"@ {
            if !has_expiry && !keepttl && a.len() - i > 1 {
                match i64_of(a[i + 1]) {
                    None => {},
                    Some(ts) => {
                        if ts > 0 && ts <= 9223372036854775 {
                            let (expire_in, past_expired) = if ts as u64 > (env.now_ms / 1000) {
                                let expire_in = Some(Duration::of_secs((ts as u64 - (env.now_ms / 1000)) as u64));
                                (expire_in, past_expired)
                            } else {
                                let past_expired = true;
                                (expire_in, past_expired)
                            };
                            let has_expiry = true;
                            let i: int = i + 2;
                            lemma_set_options(
                                a,
                                env,
                                expire_in,
                                condition,
                                conditioned,
                                get,
                                keepttl,
                                past_expired,
                                has_expiry,
                                i,
                            );
                        }
                    },
                }
            }
        } else if opt == "PXAT"@ {
            if !has_expiry && !keepttl && a.len() - i > 1 {
                match i128_of(a[i + 1]) {
                    None => {},
                    Some(ts) => {
                        if ts > 0 && ts <= 9223372036854775807 {
                            let (expire_in, past_expired) = if ts as u64 > env.now_ms {
                                let expire_in = Some(Duration::of_millis((ts as u64 - env.now_ms) as u64));
                                (expire_in, past_expired)
                            } else {
                                let past_expired = true;
                                (expire_in, past_expired)
                            };
                            let has_expiry = true;
                            let i: int = i + 2;
                            lemma_set_options(
                                a,
                                env,
                                expire_in,
                                condition,
                                conditioned,
                                get,
                                keepttl,
                                past_expired,
                                has_expiry,
                                i,
                            );
                        }
                    },
                }
            }
        }
    }
}

/// `SET` sets at most one expiry: a time that is left, a time that is past, or the one that there
/// is.
pub proof fn law_set_expires_one_way(a: Seq<Seq<u8>>, env: &ParseEnv)
    ensures
        set_spec(a, env) matches Ok(c) ==> c is SetKey && expires_one_way(
            c->SetKey_expire_in,
            c->SetKey_keepttl,
            c->SetKey_past_expired,
        ),
{
    lemma_set_options(
        a,
        env,
        None,
        SetConditionView::Always,
        false,
        false,
        false,
        false,
        false,
        3,
    );
}

/// The pairs of `MSETEX` are counted, and no more are taken than were promised.
proof fn lemma_msetex_options(
    a: Seq<Seq<u8>>,
    env: &ParseEnv,
    numkeys: usize,
    pairs: Seq<(Seq<u8>, Seq<u8>)>,
    condition: MsetexCondition,
    expiry: MsetexExpiry,
    found: usize,
    i: int,
)
    requires
        found == pairs.len(),
        found <= numkeys,
    ensures
        msetex_options(a, env, numkeys, pairs, condition, expiry, found, i) matches Ok(r) ==> r.3
            == r.0.len() && r.3 <= numkeys,
    decreases a.len() - i,
{
    if i < a.len() {
        let opt = upper_utf8_word(a[i]);
        if opt == "NX"@ {
            if condition == MsetexCondition::Always {
                let condition = MsetexCondition::Nx;
                let i: int = i + 1;
                lemma_msetex_options(a, env, numkeys, pairs, condition, expiry, found, i);
            }
        } else if opt == "XX"@ {
            if condition == MsetexCondition::Always {
                let condition = MsetexCondition::Xx;
                let i: int = i + 1;
                lemma_msetex_options(a, env, numkeys, pairs, condition, expiry, found, i);
            }
        } else if opt == "KEEPTTL"@ {
            if expiry == MsetexExpiry::NoExpiry {
                let expiry = MsetexExpiry::KeepTtl;
                let i: int = i + 1;
                lemma_msetex_options(a, env, numkeys, pairs, condition, expiry, found, i);
            }
        } else if opt == "EX"@ {
            if expiry == MsetexExpiry::NoExpiry && a.len() - i > 1 {
                match u64_of(a[i + 1]) {
                    None => {},
                    Some(sec) => {
                        let expiry = MsetexExpiry::ExpireIn(Duration::of_secs(sec));
                        let i: int = i + 2;
                        lemma_msetex_options(a, env, numkeys, pairs, condition, expiry, found, i);
                    },
                }
            }
        } else if opt == "PX"@ {
            if expiry == MsetexExpiry::NoExpiry && a.len() - i > 1 {
                match u64_of(a[i + 1]) {
                    None => {},
                    Some(ms) => {
                        let expiry = MsetexExpiry::ExpireIn(Duration::of_millis(ms));
                        let i: int = i + 2;
                        lemma_msetex_options(a, env, numkeys, pairs, condition, expiry, found, i);
                    },
                }
            }
        } else if opt == "EXAT"@ {
            if expiry == MsetexExpiry::NoExpiry && a.len() - i > 1 {
                match u64_of(a[i + 1]) {
                    None => {},
                    Some(ts) => {
                        let expiry = MsetexExpiry::ExpireIn(span_to(ts, (env.now_ms / 1000)));
                        let i: int = i + 2;
                        lemma_msetex_options(a, env, numkeys, pairs, condition, expiry, found, i);
                    },
                }
            }
        } else if opt == "PXAT"@ {
            if expiry == MsetexExpiry::NoExpiry && a.len() - i > 1 {
                match u128_of(a[i + 1]) {
                    None => {},
                    Some(ts) => {
                        let expiry = if ts > env.now_ms as u128 {
                            let expiry = MsetexExpiry::ExpireIn(Duration::of_millis((ts - env.now_ms as u128) as u64));
                            expiry
                        } else {
                            let expiry = MsetexExpiry::ExpireIn(Duration::of_millis(1));
                            expiry
                        };
                        let i: int = i + 2;
                        lemma_msetex_options(a, env, numkeys, pairs, condition, expiry, found, i);
                    },
                }
            }
        } else if found < numkeys {
            if a.len() - i > 1 {
                let pairs = pairs.push((a[i], a[i + 1]));
                let found: usize = (found + 1) as usize;
                let i: int = i + 2;
                lemma_msetex_options(a, env, numkeys, pairs, condition, expiry, found, i);
            }
        }
    }
}

/// `MSETEX` sets as many pairs as it was told there are.
pub proof fn law_msetex_sets_what_was_promised(a: Seq<Seq<u8>>, env: &ParseEnv)
    ensures
        msetex_spec(a, env) matches Ok(c) ==> c is Msetex && i64_of(a[1]) == Some(
            c->Msetex_pairs.len() as i64,
        ),
{
    if a.len() >= 2 && i64_of(a[1]) is Some {
        let wanted = i64_of(a[1])->0;
        if 0 <= wanted <= 2147483647 {
            lemma_msetex_options(
                a,
                env,
                wanted as usize,
                Seq::empty(),
                MsetexCondition::Always,
                MsetexExpiry::NoExpiry,
                0,
                2,
            );
        }
    }
}

/// `LCS` gives the length alone or the places, never both.
pub proof fn law_lcs_gives_one_thing(a: Seq<Seq<u8>>)
    ensures
        lcs_spec(a) matches Ok(c) ==> c is Lcs && !(c->len_only && c->idx),
{
}

/// `ZADD` takes its arguments two by two.
proof fn lemma_zadd_elements(
    a: Seq<Seq<u8>>,
    env: &ParseEnv,
    i: int,
    elements: Seq<(Double, Seq<u8>)>,
)
    requires
        i <= a.len(),
    ensures
        zadd_elements(a, env, i, elements) matches Ok(r) ==> r.len() == elements.len() + (a.len()
            - i) / 2,
    decreases a.len() - i,
{
    if a.len() - i > 1 {
        if let Some(score) = redis_double_of(env, a[i]) {
            lemma_zadd_elements(a, env, i + 2, elements.push((score, a[i + 1])));
        }
    }
}

/// The options of `ZADD` do not contradict each other: none that only adds goes with one that only
/// updates or compares, nor both comparisons together; and there is something to add, one pair alone
/// where it is an increment.
pub proof fn law_zadd_options_agree(a: Seq<Seq<u8>>, env: &ParseEnv)
    ensures
        zadd_spec(a, env) matches Ok(c) ==> {
            &&& c is Zadd
            &&& !(c->Zadd_flags.nx && c->Zadd_flags.xx)
            &&& !(c->Zadd_flags.gt && c->Zadd_flags.lt)
            &&& !(c->Zadd_flags.nx && (c->Zadd_flags.gt || c->Zadd_flags.lt))
            &&& c->Zadd_elements.len() > 0
            &&& c->Zadd_flags.incr ==> c->Zadd_elements.len() == 1
        },
{
    let (flags, i) = zadd_options(a, ZAddFlags::none(), 2);
    if i < a.len() {
        lemma_zadd_elements(a, env, i, Seq::empty());
    }
}

/// Without `LIMIT`, `ZRANGE` has none.
proof fn lemma_zrange_options(
    a: Seq<Seq<u8>>,
    by_score: bool,
    by_lex: bool,
    rev: bool,
    with_scores: bool,
    has_limit: bool,
    offset: usize,
    count: Option<usize>,
    i: int,
)
    requires
        !has_limit ==> offset == 0 && count is None,
    ensures
        zrange_options(
            a,
            by_score,
            by_lex,
            rev,
            with_scores,
            has_limit,
            offset,
            count,
            i,
        ) matches Ok(r) ==> (!r.4 ==> r.5 == 0 && r.6 is None),
    decreases a.len() - i,
{
    if i < a.len() {
        let opt = upper_word(a[i]);
        if opt == "BYSCORE"@ {
            let by_score = true;
            let i: int = i + 1;
            lemma_zrange_options(
                a,
                by_score,
                by_lex,
                rev,
                with_scores,
                has_limit,
                offset,
                count,
                i,
            );
        } else if opt == "BYLEX"@ {
            let by_lex = true;
            let i: int = i + 1;
            lemma_zrange_options(
                a,
                by_score,
                by_lex,
                rev,
                with_scores,
                has_limit,
                offset,
                count,
                i,
            );
        } else if opt == "REV"@ {
            let rev = true;
            let i: int = i + 1;
            lemma_zrange_options(
                a,
                by_score,
                by_lex,
                rev,
                with_scores,
                has_limit,
                offset,
                count,
                i,
            );
        } else if opt == "WITHSCORES"@ {
            let with_scores = true;
            let i: int = i + 1;
            lemma_zrange_options(
                a,
                by_score,
                by_lex,
                rev,
                with_scores,
                has_limit,
                offset,
                count,
                i,
            );
        } else if opt == "LIMIT"@ {
            let has_limit = true;
            if a.len() - i > 2 {
                match i64_of(a[i + 1]) {
                    None => {},
                    Some(off) => {
                        match i64_of(a[i + 2]) {
                            None => {},
                            Some(c) => {
                                let offset: usize = if off < 0 { usize::MAX } else { off as usize };
                                let count = if c < 0 { None } else { Some(c as usize) };
                                let i: int = i + 3;
                                lemma_zrange_options(
                                    a,
                                    by_score,
                                    by_lex,
                                    rev,
                                    with_scores,
                                    has_limit,
                                    offset,
                                    count,
                                    i,
                                );
                            },
                        }
                    },
                }
            }
        }
    }
}

/// Without `LIMIT`, `ZRANGESTORE` has none.
proof fn lemma_zrangestore_options(
    a: Seq<Seq<u8>>,
    by_score: bool,
    by_lex: bool,
    rev: bool,
    has_limit: bool,
    offset: usize,
    count: Option<usize>,
    i: int,
)
    requires
        !has_limit ==> offset == 0 && count is None,
    ensures
        zrangestore_options(a, by_score, by_lex, rev, has_limit, offset, count, i) matches Ok(r)
            ==> (!r.3 ==> r.4 == 0 && r.5 is None),
    decreases a.len() - i,
{
    if i < a.len() {
        let opt = upper_word(a[i]);
        if opt == "BYSCORE"@ {
            let by_score = true;
            let i: int = i + 1;
            lemma_zrangestore_options(a, by_score, by_lex, rev, has_limit, offset, count, i);
        } else if opt == "BYLEX"@ {
            let by_lex = true;
            let i: int = i + 1;
            lemma_zrangestore_options(a, by_score, by_lex, rev, has_limit, offset, count, i);
        } else if opt == "REV"@ {
            let rev = true;
            let i: int = i + 1;
            lemma_zrangestore_options(a, by_score, by_lex, rev, has_limit, offset, count, i);
        } else if opt == "LIMIT"@ {
            let has_limit = true;
            if a.len() - i > 2 {
                match i64_of(a[i + 1]) {
                    None => {},
                    Some(off) => {
                        match i64_of(a[i + 2]) {
                            None => {},
                            Some(c) => {
                                let offset: usize = if off < 0 { usize::MAX } else { off as usize };
                                let count = if c < 0 { None } else { Some(c as usize) };
                                let i: int = i + 3;
                                lemma_zrangestore_options(
                                    a,
                                    by_score,
                                    by_lex,
                                    rev,
                                    has_limit,
                                    offset,
                                    count,
                                    i,
                                );
                            },
                        }
                    },
                }
            }
        }
    }
}

/// A range goes by score, by name or by place, and is limited only where it does not go by place.
pub open spec fn one_kind_of_range(opts: ZRangeOptsView) -> bool {
    &&& !(opts.by_score && opts.by_lex)
    &&& !opts.by_score && !opts.by_lex ==> opts.offset == 0 && opts.count is None
}

/// The range of `ZRANGE` is of one kind, and has no scores where it goes by name.
pub proof fn law_zrange_is_of_one_kind(a: Seq<Seq<u8>>, env: &ParseEnv)
    ensures
        zrange_spec(a, env) matches Ok(c) ==> {
            &&& c is Zrange
            &&& one_kind_of_range(c->Zrange_opts)
            &&& !(c->Zrange_opts.with_scores && c->Zrange_opts.by_lex)
        },
{
    lemma_zrange_options(a, false, false, false, false, false, 0, None, 4);
}

/// The range of `ZRANGESTORE` is of one kind.
pub proof fn law_zrangestore_is_of_one_kind(a: Seq<Seq<u8>>, env: &ParseEnv)
    ensures
        zrangestore_spec(a, env) matches Ok(c) ==> c is Zrangestore && one_kind_of_range(
            c->Zrangestore_opts,
        ),
{
    lemma_zrangestore_options(a, false, false, false, false, 0, None, 5);
}

/// Weights come as many at a time as there are sorted sets to combine, so that each has one.
pub proof fn law_weights_fit_the_keys(
    a: Seq<Seq<u8>>,
    env: &ParseEnv,
    numkeys: usize,
    scored: bool,
    how: Combination,
    i: int,
)
    requires
        numkeys > 0,
        how.weights.len() % numkeys as nat == 0,
    ensures
        combine_options(a, env, numkeys, scored, how, i) matches Ok(r) ==> r.weights.len()
            % numkeys as nat == 0,
        combine_options(a, env, numkeys, scored, how, i) matches Ok(r) ==> !scored ==> r.with_scores
            == how.with_scores,
    decreases a.len() - i,
{
    if i < a.len() {
        let opt = upper_word(a[i]);
        if opt == "WEIGHTS"@ {
            lemma_combine_weights(a, env, how.weights, i + 1, numkeys as int);
            if let Ok((weights, i)) = combine_weights(a, env, how.weights, i + 1, numkeys as int) {
                vstd::arithmetic::div_mod::lemma_mod_add_multiples_vanish(
                    how.weights.len() as int,
                    numkeys as int,
                );
                law_weights_fit_the_keys(
                    a,
                    env,
                    numkeys,
                    scored,
                    (Combination { weights, ..how }),
                    i,
                );
            }
        } else if opt == "AGGREGATE"@ {
            if a.len() - i > 1 {
                if let Some(aggregate) = aggregate_of(upper_word(a[i + 1])) {
                    law_weights_fit_the_keys(
                        a,
                        env,
                        numkeys,
                        scored,
                        (Combination { aggregate, ..how }),
                        i + 2,
                    );
                }
            }
        } else if opt == "WITHSCORES"@ && scored {
            law_weights_fit_the_keys(
                a,
                env,
                numkeys,
                scored,
                (Combination { with_scores: true, ..how }),
                i + 1,
            );
        }
    }
}

} // verus!
