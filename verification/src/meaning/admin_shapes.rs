//! What some commands on administration are made of, shape by shape.
use vstd::prelude::*;

use crate::build::named_command_spec;
use crate::build::admin::{config_spec, joined};
use crate::build::naming::{lemma_admin_codes, lemma_reach_admin, name_code};
use crate::command::CommandView;
use crate::readings::ParseEnv;
use crate::resp::unnamed;
use crate::text::upper_word;
use super::{called, lemma_called, makes, verdict};

verus! {

/// A setting and its value, without the quotation marks around it.
pub proof fn law_config_set_shapes(a: Seq<Seq<u8>>, env: &ParseEnv)
    requires
        called(a, "CONFIG"@),
        a.len() == 4,
        upper_word(a[1]) == "SET"@,
    ensures
        a[3].len() < 2 || (a[3][0] != 34 && a[3][0] != 39) || a[3].last() != a[3][0] ==>
            makes(a, env, CommandView::ConfigSet(a[2], a[3])),
        a[3].len() >= 2 && (a[3][0] == 34 || a[3][0] == 39) && a[3].last() == a[3][0] ==>
            makes(a, env, CommandView::ConfigSet(a[2], a[3].subrange(1, a[3].len() - 1))),
{
    reveal(verdict);
    lemma_called(a);
    assert(named_command_spec(upper_word(a[0]), unnamed(a), env) == config_spec(unnamed(a))) by {
        lemma_reach_admin(upper_word(a[0]), unnamed(a), env);
        lemma_admin_codes();
    }
    reveal(name_code);
    reveal_strlit("GET");
    reveal_strlit("RESETSTAT");
    reveal_strlit("REWRITE");
    reveal_strlit("SET");
    assert(name_code("GET"@) == 7836167833325503);
    assert(name_code("RESETSTAT"@) == 9045746930517209);
    assert(name_code("REWRITE"@) == 9045768747936907);
    assert(name_code("SET"@) == 9155581786657903);
    reveal_with_fuel(joined, 2);
    assert(a.skip(3)[0] == a[3]);
    assert(a.skip(3).len() == 1);
}

} // verus!
