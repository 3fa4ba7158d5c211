//! What some commands on documents are made of, shape by shape.
use vstd::prelude::*;

use crate::build::named_command_spec;
use crate::build::json::{json_set_options, json_set_spec};
use crate::build::naming::{lemma_json_codes, lemma_reach_json, name_code};
use crate::command::CommandView;
use crate::readings::ParseEnv;
use crate::resp::unnamed;
use crate::text::{lossy_text, upper_word};
use super::{called, lemma_called, makes, verdict};

verus! {

/// A document is set always, or only where it is not there, or only where it is.
pub proof fn law_json_set_shapes(a: Seq<Seq<u8>>, env: &ParseEnv)
    requires
        called(a, "JSON.SET"@),
        a.len() >= 4,
    ensures
        a.len() == 4 ==>
            makes(
                a,
                env,
                CommandView::JsonSet {
                    key: a[1],
                    path: lossy_text(a[2]),
                    json_val: lossy_text(a[3]),
                    nx: false,
                    xx: false,
                },
            ),
        a.len() == 5 && upper_word(a[4]) == "NX"@ ==>
            makes(
                a,
                env,
                CommandView::JsonSet {
                    key: a[1],
                    path: lossy_text(a[2]),
                    json_val: lossy_text(a[3]),
                    nx: true,
                    xx: false,
                },
            ),
        a.len() == 5 && upper_word(a[4]) == "XX"@ ==>
            makes(
                a,
                env,
                CommandView::JsonSet {
                    key: a[1],
                    path: lossy_text(a[2]),
                    json_val: lossy_text(a[3]),
                    nx: false,
                    xx: true,
                },
            ),
{
    reveal(verdict);
    lemma_called(a);
    assert(named_command_spec(upper_word(a[0]), unnamed(a), env) == json_set_spec(unnamed(a))) by {
        lemma_reach_json(upper_word(a[0]), unnamed(a), env);
        lemma_json_codes();
    }
    reveal(name_code);
    reveal_strlit("NX");
    reveal_strlit("XX");
    assert(name_code("NX"@) == 8613986410854402);
    assert(name_code("XX"@) == 9713498038886402);
    reveal_with_fuel(json_set_options, 3);
}

} // verus!
