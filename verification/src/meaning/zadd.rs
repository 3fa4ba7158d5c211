//! What the words of `ZADD` add: options in front, and scores with their members behind.
use vstd::prelude::*;

use crate::build::named_command_spec;
use crate::build::naming::{lemma_reach_zsets, lemma_zsets_codes, name_code};
use crate::build::zsets::{zadd_elements, zadd_options, zadd_spec};
use crate::command::CommandView;
use crate::operands::{Double, ZAddFlags};
use crate::readings::{redis_double_of, ParseEnv};
use crate::resp::unnamed;
use crate::text::upper_word;
use super::{called, lemma_called, makes, refuses, verdict};

verus! {

/// Whether a word is an option of `ZADD`.
pub open spec fn is_zadd_option(w: Seq<char>) -> bool {
    w == "NX"@ || w == "XX"@ || w == "GT"@ || w == "LT"@ || w == "CH"@ || w == "INCR"@
}

/// The options of either.
pub open spec fn both(f: ZAddFlags, g: ZAddFlags) -> ZAddFlags {
    ZAddFlags {
        nx: f.nx || g.nx,
        xx: f.xx || g.xx,
        gt: f.gt || g.gt,
        lt: f.lt || g.lt,
        ch: f.ch || g.ch,
        incr: f.incr || g.incr,
    }
}

/// The option that a word is.
pub open spec fn flag_of(w: Seq<char>) -> ZAddFlags {
    ZAddFlags {
        nx: w == "NX"@,
        xx: w == "XX"@,
        gt: w == "GT"@,
        lt: w == "LT"@,
        ch: w == "CH"@,
        incr: w == "INCR"@,
    }
}

/// Words with one more behind the key.
pub open spec fn with_word(a: Seq<Seq<u8>>, w: Seq<u8>) -> Seq<Seq<u8>> {
    a.take(2).push(w) + a.skip(2)
}

/// What `ZADD` is known to build.
proof fn lemma_zadd(a: Seq<Seq<u8>>, env: &ParseEnv)
    requires
        called(a, "ZADD"@),
    ensures
        verdict(a, env) == match zadd_spec(unnamed(a), env) {
            Ok(c) => Ok::<Option<CommandView>, Seq<char>>(Some(c)),
            Err(e) => Err(e),
        },
{
    reveal(verdict);
    assert(named_command_spec(upper_word(a[0]), unnamed(a), env) == zadd_spec(unnamed(a), env)) by {
        lemma_reach_zsets(upper_word(a[0]), unnamed(a), env);
        lemma_zsets_codes();
    }
}

/// The words of the options differ.
proof fn lemma_option_words()
    ensures
        name_code("NX"@) == 8613986410854402,
        name_code("XX"@) == 9713498038886402,
        name_code("GT"@) == 7842610284313602,
        name_code("LT"@) == 8392366098329602,
        name_code("CH"@) == 7397651672345602,
        name_code("INCR"@) == 8060073202567804,
{
    reveal(name_code);
    reveal_strlit("NX");
    reveal_strlit("XX");
    reveal_strlit("GT");
    reveal_strlit("LT");
    reveal_strlit("CH");
    reveal_strlit("INCR");
}

/// A word more in front adds its option to what the others give.
proof fn lemma_option_more(
    a: Seq<Seq<u8>>,
    b: Seq<Seq<u8>>,
    f: ZAddFlags,
    g: ZAddFlags,
    i: int,
)
    requires
        2 <= i,
        b.len() == a.len() + 1,
        forall|k: int| 2 <= k < a.len() ==> #[trigger] b[k + 1] == a[k],
    ensures
        ({
            let r = zadd_options(a, f, i);
            zadd_options(b, both(f, g), i + 1) == (both(r.0, g), r.1 + 1)
        }),
        zadd_options(a, f, i).1 >= i,
    decreases a.len() - i,
{
    if i < a.len() {
        assert(b[i + 1] == a[i]);
        let opt = upper_word(a[i]);
        if opt == "NX"@ {
            lemma_option_more(a, b, ZAddFlags { nx: true, ..f }, g, i + 1);
            assert(both(ZAddFlags { nx: true, ..f }, g) == ZAddFlags { nx: true, ..both(f, g) });
        } else if opt == "XX"@ {
            lemma_option_more(a, b, ZAddFlags { xx: true, ..f }, g, i + 1);
            assert(both(ZAddFlags { xx: true, ..f }, g) == ZAddFlags { xx: true, ..both(f, g) });
        } else if opt == "GT"@ {
            lemma_option_more(a, b, ZAddFlags { gt: true, ..f }, g, i + 1);
            assert(both(ZAddFlags { gt: true, ..f }, g) == ZAddFlags { gt: true, ..both(f, g) });
        } else if opt == "LT"@ {
            lemma_option_more(a, b, ZAddFlags { lt: true, ..f }, g, i + 1);
            assert(both(ZAddFlags { lt: true, ..f }, g) == ZAddFlags { lt: true, ..both(f, g) });
        } else if opt == "CH"@ {
            lemma_option_more(a, b, ZAddFlags { ch: true, ..f }, g, i + 1);
            assert(both(ZAddFlags { ch: true, ..f }, g) == ZAddFlags { ch: true, ..both(f, g) });
        } else if opt == "INCR"@ {
            lemma_option_more(a, b, ZAddFlags { incr: true, ..f }, g, i + 1);
            assert(both(
                ZAddFlags { incr: true, ..f },
                g,
            ) == ZAddFlags { incr: true, ..both(f, g) });
        }
    }
}

/// Scores and members are the same one word further on.
proof fn lemma_elements_shift(
    a: Seq<Seq<u8>>,
    b: Seq<Seq<u8>>,
    env: &ParseEnv,
    i: int,
    elements: Seq<(Double, Seq<u8>)>,
)
    requires
        2 <= i,
        b.len() == a.len() + 1,
        forall|k: int| 2 <= k < a.len() ==> #[trigger] b[k + 1] == a[k],
    ensures
        zadd_elements(b, env, i + 1, elements) == zadd_elements(a, env, i, elements),
    decreases a.len() - i,
{
    if a.len() - i > 1 {
        assert(b[i + 1] == a[i]);
        assert(b[i + 1 + 1] == a[i + 1]);
        if let Some(score) = redis_double_of(env, a[i]) {
            lemma_elements_shift(a, b, env, i + 2, elements.push((score, a[i + 1])));
        }
    }
}

/// Scores and members make as many elements.
proof fn lemma_elements_len(
    a: Seq<Seq<u8>>,
    env: &ParseEnv,
    i: int,
    elements: Seq<(Double, Seq<u8>)>,
)
    requires
        i <= a.len(),
    ensures
        zadd_elements(a, env, i, elements) matches Ok(r) ==> r.len() == elements.len() + (a.len()
            - i) / 2,
    decreases a.len() - i,
{
    if a.len() - i > 1 {
        if let Some(score) = redis_double_of(env, a[i]) {
            lemma_elements_len(a, env, i + 2, elements.push((score, a[i + 1])));
        }
    }
}

/// An option of `ZADD`, in front of the others, adds its own to what they give and leaves the scores
/// and members as they are; and where it contradicts one of them it is refused.
pub proof fn law_zadd_option(
    a: Seq<Seq<u8>>,
    env: &ParseEnv,
    elements: Seq<(Double, Seq<u8>)>,
    flags: ZAddFlags,
    w: Seq<u8>,
)
    requires
        called(a, "ZADD"@),
        makes(a, env, CommandView::Zadd { key: a[1], elements, flags }),
        is_zadd_option(upper_word(w)),
    ensures
        ({
            let b = with_word(a, w);
            let now = both(flags, flag_of(upper_word(w)));
            &&& now.nx && now.xx ==> refuses(
                b,
                env,
                "XX and NX options at the same time are not compatible"@,
            )
            &&& !(now.nx && now.xx) && now.gt && now.lt ==> refuses(
                b,
                env,
                "GT and LT options at the same time are not compatible"@,
            )
            &&& !(now.nx && now.xx) && !(now.gt && now.lt) && now.nx && (now.gt || now.lt)
                ==> refuses(b, env, "NX and GT, LT options are not compatible"@)
            &&& !(now.nx && (now.xx || now.gt || now.lt)) && !(now.gt && now.lt) && now.incr
                && elements.len() != 1 ==> refuses(
                b,
                env,
                "INCR option supports a single increment-element pair"@,
            )
            &&& !(now.nx && (now.xx || now.gt || now.lt)) && !(now.gt && now.lt) && (!now.incr
                || elements.len() == 1) ==> makes(
                b,
                env,
                CommandView::Zadd { key: a[1], elements, flags: now },
            )
        }),
{
    let b = with_word(a, w);
    let none = ZAddFlags::none();
    let g = flag_of(upper_word(w));
    lemma_zadd(a, env);
    let ua = unnamed(a);
    assert(ua.len() >= 4);
    assert(b.len() == a.len() + 1);
    assert(b[0] == a[0]);
    let ub = unnamed(b);
    lemma_called(a);
    lemma_called(b);
    lemma_zadd(b, env);
    assert forall|k: int| 2 <= k < ua.len() implies #[trigger] ub[k + 1] == ua[k] by {
        assert(b[k + 1] == a[k]);
    }
    assert(b[1] == a[1] && b[2] == w);
    lemma_option_more(ua, ub, none, g, 2);
    let (f, i) = zadd_options(ua, none, 2);
    lemma_elements_shift(ua, ub, env, i, Seq::empty());
    lemma_elements_len(ua, env, i, Seq::empty());
    assert(both(none, g) == g);
    assert(zadd_options(ub, none, 2) == zadd_options(ub, g, 3)) by {
        lemma_option_words();
        reveal_with_fuel(zadd_options, 1);
    }
}

/// Options end where they ended, whatever follows.
proof fn lemma_options_end(a: Seq<Seq<u8>>, more: Seq<Seq<u8>>, f: ZAddFlags, i: int)
    requires
        0 <= i,
        zadd_options(a, f, i).1 < a.len(),
    ensures
        zadd_options(a + more, f, i) == zadd_options(a, f, i),
    decreases a.len() - i,
{
    if i < a.len() {
        assert((a + more)[i] == a[i]);
        let opt = upper_word(a[i]);
        if opt == "NX"@ {
            lemma_options_end(a, more, ZAddFlags { nx: true, ..f }, i + 1);
        } else if opt == "XX"@ {
            lemma_options_end(a, more, ZAddFlags { xx: true, ..f }, i + 1);
        } else if opt == "GT"@ {
            lemma_options_end(a, more, ZAddFlags { gt: true, ..f }, i + 1);
        } else if opt == "LT"@ {
            lemma_options_end(a, more, ZAddFlags { lt: true, ..f }, i + 1);
        } else if opt == "CH"@ {
            lemma_options_end(a, more, ZAddFlags { ch: true, ..f }, i + 1);
        } else if opt == "INCR"@ {
            lemma_options_end(a, more, ZAddFlags { incr: true, ..f }, i + 1);
        }
    }
}

/// Elements behind elements.
proof fn lemma_elements_go_on(
    a: Seq<Seq<u8>>,
    more: Seq<Seq<u8>>,
    env: &ParseEnv,
    i: int,
    elements: Seq<(Double, Seq<u8>)>,
)
    requires
        0 <= i <= a.len(),
        (a.len() - i) % 2 == 0,
    ensures
        zadd_elements(a, env, i, elements) matches Ok(r) ==> zadd_elements(
            a + more,
            env,
            i,
            elements,
        ) == zadd_elements(a + more, env, a.len() as int, r),
    decreases a.len() - i,
{
    if a.len() - i > 1 {
        assert((a + more)[i] == a[i]);
        assert((a + more)[i + 1] == a[i + 1]);
        if let Some(score) = redis_double_of(env, a[i]) {
            lemma_elements_go_on(a, more, env, i + 2, elements.push((score, a[i + 1])));
        }
    }
}

/// A score and a member more are one element more, behind the others; an increment takes no second
/// one, and what is no number is no score.
pub proof fn law_zadd_pair(
    a: Seq<Seq<u8>>,
    env: &ParseEnv,
    elements: Seq<(Double, Seq<u8>)>,
    flags: ZAddFlags,
    x: Seq<u8>,
    y: Seq<u8>,
)
    requires
        called(a, "ZADD"@),
        makes(a, env, CommandView::Zadd { key: a[1], elements, flags }),
    ensures
        flags.incr ==> refuses(
            a + seq![x, y],
            env,
            "INCR option supports a single increment-element pair"@,
        ),
        !flags.incr && redis_double_of(env, x) is None ==> refuses(
            a + seq![x, y],
            env,
            "value is not a valid float"@,
        ),
        !flags.incr && redis_double_of(env, x) is Some ==> makes(
            a + seq![x, y],
            env,
            CommandView::Zadd {
                key: a[1],
                elements: elements.push((redis_double_of(env, x)->0, y)),
                flags,
            },
        ),
{
    let more = seq![x, y];
    let b = a + more;
    let none = ZAddFlags::none();
    lemma_zadd(a, env);
    lemma_zadd(b, env);
    lemma_called(a);
    lemma_called(b);
    let ua = unnamed(a);
    assert(unnamed(b) =~= ua + more);
    let ub = ua + more;
    let (f, i) = zadd_options(ua, none, 2);
    lemma_from(ua, none, 2);
    lemma_options_end(ua, more, none, 2);
    lemma_elements_go_on(ua, more, env, i, Seq::empty());
    assert(ub[ua.len() as int] == x && ub[ua.len() as int + 1] == y);
    reveal_with_fuel(zadd_elements, 3);
}

/// Options begin where they begin.
proof fn lemma_from(a: Seq<Seq<u8>>, f: ZAddFlags, i: int)
    ensures
        zadd_options(a, f, i).1 >= i,
    decreases a.len() - i,
{
    if i < a.len() {
        lemma_from(a, ZAddFlags { nx: true, ..f }, i + 1);
        lemma_from(a, ZAddFlags { xx: true, ..f }, i + 1);
        lemma_from(a, ZAddFlags { gt: true, ..f }, i + 1);
        lemma_from(a, ZAddFlags { lt: true, ..f }, i + 1);
        lemma_from(a, ZAddFlags { ch: true, ..f }, i + 1);
        lemma_from(a, ZAddFlags { incr: true, ..f }, i + 1);
    }
}

/// One score and one member, without options.
pub proof fn law_zadd_bare(a: Seq<Seq<u8>>, env: &ParseEnv)
    requires
        called(a, "ZADD"@),
        a.len() == 4,
        !is_zadd_option(upper_word(a[2])),
        redis_double_of(env, a[2]) is Some,
    ensures
        makes(
            a,
            env,
            CommandView::Zadd {
                key: a[1],
                elements: seq![(redis_double_of(env, a[2])->0, a[3])],
                flags: ZAddFlags {
                    nx: false,
                    xx: false,
                    gt: false,
                    lt: false,
                    ch: false,
                    incr: false,
                },
            },
        ),
{
    lemma_zadd(a, env);
    lemma_called(a);
    reveal_with_fuel(zadd_elements, 3);
    assert(Seq::<(Double, Seq<u8>)>::empty().push((redis_double_of(env, a[2])->0, a[3])) =~= seq![
        (redis_double_of(env, a[2])->0, a[3]),
    ]);
}

} // verus!
