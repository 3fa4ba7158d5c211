//! What some commands on strings are made of, shape by shape.
use vstd::prelude::*;

use crate::build::named_command_spec;
use crate::build::naming::{lemma_reach_strings, lemma_strings_codes, name_code};
use crate::build::strings::{msetex_options, msetex_spec};
use crate::command::CommandView;
use crate::numbers::{i64_of, u64_of};
use crate::operands::{MsetexCondition, MsetexExpiry};
use crate::readings::ParseEnv;
use crate::resp::unnamed;
use crate::text::{upper_utf8_word, upper_word};
use crate::time::Duration;
use super::{called, lemma_called, makes, verdict};

verus! {

/// One pair, the condition that it is set under and the time that it is kept.
pub proof fn law_msetex_shapes(a: Seq<Seq<u8>>, env: &ParseEnv)
    requires
        called(a, "MSETEX"@),
        i64_of(a[1]) == Some(1i64),
        upper_utf8_word(a[2]) != "NX"@,
        upper_utf8_word(a[2]) != "XX"@,
        upper_utf8_word(a[2]) != "KEEPTTL"@,
        upper_utf8_word(a[2]) != "EX"@,
        upper_utf8_word(a[2]) != "PX"@,
        upper_utf8_word(a[2]) != "EXAT"@,
        upper_utf8_word(a[2]) != "PXAT"@,
    ensures
        a.len() == 4 ==>
            makes(
                a,
                env,
                CommandView::Msetex {
                    pairs: seq![(a[2], a[3])],
                    condition: MsetexCondition::Always,
                    expiry: MsetexExpiry::NoExpiry,
                },
            ),
        a.len() == 5 && upper_utf8_word(a[4]) == "NX"@ ==>
            makes(
                a,
                env,
                CommandView::Msetex {
                    pairs: seq![(a[2], a[3])],
                    condition: MsetexCondition::Nx,
                    expiry: MsetexExpiry::NoExpiry,
                },
            ),
        a.len() == 5 && upper_utf8_word(a[4]) == "XX"@ ==>
            makes(
                a,
                env,
                CommandView::Msetex {
                    pairs: seq![(a[2], a[3])],
                    condition: MsetexCondition::Xx,
                    expiry: MsetexExpiry::NoExpiry,
                },
            ),
        a.len() == 5 && upper_utf8_word(a[4]) == "KEEPTTL"@ ==>
            makes(
                a,
                env,
                CommandView::Msetex {
                    pairs: seq![(a[2], a[3])],
                    condition: MsetexCondition::Always,
                    expiry: MsetexExpiry::KeepTtl,
                },
            ),
        a.len() == 6 && upper_utf8_word(a[4]) == "EX"@ && u64_of(a[5]) is Some ==>
            makes(
                a,
                env,
                CommandView::Msetex {
                    pairs: seq![(a[2], a[3])],
                    condition: MsetexCondition::Always,
                    expiry: MsetexExpiry::ExpireIn(Duration { secs: u64_of(a[5])->0, nanos: 0 }),
                },
            ),
{
    reveal(verdict);
    lemma_called(a);
    assert(named_command_spec(
        upper_word(a[0]),
        unnamed(a),
        env,
    ) == msetex_spec(unnamed(a), env)) by {
        lemma_reach_strings(upper_word(a[0]), unnamed(a), env);
        lemma_strings_codes();
    }
    reveal(name_code);
    reveal_strlit("EX");
    reveal_strlit("EXAT");
    reveal_strlit("KEEPTTL");
    reveal_strlit("NX");
    reveal_strlit("PX");
    reveal_strlit("PXAT");
    reveal_strlit("XX");
    assert(name_code("EX"@) == 7624425945625602);
    assert(name_code("EXAT"@) == 7624566874146404);
    assert(name_code("KEEPTTL"@) == 8276107253051607);
    assert(name_code("NX"@) == 8613986410854402);
    assert(name_code("PX"@) == 8833888736460802);
    assert(name_code("PXAT"@) == 8834029664700004);
    assert(name_code("XX"@) == 9713498038886402);
    reveal_with_fuel(msetex_options, 3);
}

} // verus!
