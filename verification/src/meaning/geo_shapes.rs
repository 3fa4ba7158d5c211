//! What some commands on places are made of, shape by shape.
use vstd::prelude::*;

use crate::build::named_command_spec;
use crate::build::geo::{geoadd_items, geoadd_options, geoadd_spec};
use crate::build::naming::{lemma_geo_codes, lemma_reach_geo, name_code};
use crate::command::CommandView;
use crate::readings::{ParseEnv, double_of};
use crate::resp::unnamed;
use crate::text::upper_word;
use super::{called, lemma_called, makes, verdict};

verus! {

/// A place, with its longitude before its latitude, and how it is set.
pub proof fn law_geoadd_shapes(a: Seq<Seq<u8>>, env: &ParseEnv)
    requires
        called(a, "GEOADD"@),
        a.len() >= 5,
    ensures
        a.len() == 5 && upper_word(a[2]) != "NX"@ && upper_word(a[2]) != "XX"@
            && upper_word(a[2]) != "CH"@ && double_of(env, a[2]) is Some
            && double_of(env, a[3]) is Some ==>
            makes(
                a,
                env,
                CommandView::Geoadd {
                    key: a[1],
                    items: seq![(double_of(env, a[2])->0, double_of(env, a[3])->0, a[4])],
                    nx: false,
                    xx: false,
                    ch: false,
                },
            ),
        a.len() == 6 && upper_word(a[2]) == "NX"@ && upper_word(a[3]) != "NX"@
            && upper_word(a[3]) != "XX"@ && upper_word(a[3]) != "CH"@ && double_of(env, a[3]) is Some
            && double_of(env, a[4]) is Some ==>
            makes(
                a,
                env,
                CommandView::Geoadd {
                    key: a[1],
                    items: seq![(double_of(env, a[3])->0, double_of(env, a[4])->0, a[5])],
                    nx: true,
                    xx: false,
                    ch: false,
                },
            ),
        a.len() == 6 && upper_word(a[2]) == "XX"@ && upper_word(a[3]) != "NX"@
            && upper_word(a[3]) != "XX"@ && upper_word(a[3]) != "CH"@ && double_of(env, a[3]) is Some
            && double_of(env, a[4]) is Some ==>
            makes(
                a,
                env,
                CommandView::Geoadd {
                    key: a[1],
                    items: seq![(double_of(env, a[3])->0, double_of(env, a[4])->0, a[5])],
                    nx: false,
                    xx: true,
                    ch: false,
                },
            ),
        a.len() == 6 && upper_word(a[2]) == "CH"@ && upper_word(a[3]) != "NX"@
            && upper_word(a[3]) != "XX"@ && upper_word(a[3]) != "CH"@ && double_of(env, a[3]) is Some
            && double_of(env, a[4]) is Some ==>
            makes(
                a,
                env,
                CommandView::Geoadd {
                    key: a[1],
                    items: seq![(double_of(env, a[3])->0, double_of(env, a[4])->0, a[5])],
                    nx: false,
                    xx: false,
                    ch: true,
                },
            ),
{
    reveal(verdict);
    lemma_called(a);
    assert(named_command_spec(
        upper_word(a[0]),
        unnamed(a),
        env,
    ) == geoadd_spec(unnamed(a), env)) by {
        lemma_reach_geo(upper_word(a[0]), unnamed(a), env);
        lemma_geo_codes();
    }
    reveal(name_code);
    reveal_strlit("CH");
    reveal_strlit("NX");
    reveal_strlit("XX");
    assert(name_code("CH"@) == 7397651672345602);
    assert(name_code("NX"@) == 8613986410854402);
    assert(name_code("XX"@) == 9713498038886402);
    reveal_with_fuel(geoadd_options, 3);
    reveal_with_fuel(geoadd_items, 3);
}

} // verus!
