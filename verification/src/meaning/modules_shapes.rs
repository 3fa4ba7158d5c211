//! What some commands on connections are made of, shape by shape.
use vstd::prelude::*;

use crate::build::named_command_spec;
use crate::build::modules::{hello_options, hello_spec};
use crate::build::naming::{lemma_modules_codes, lemma_reach_modules, name_code};
use crate::command::CommandView;
use crate::numbers::i64_of;
use crate::readings::ParseEnv;
use crate::resp::unnamed;
use crate::text::{lossy_text, upper_word};
use super::{called, lemma_called, makes, verdict};

verus! {

/// A greeting: the version of the protocol, a login and a name, if they are there.
pub proof fn law_hello_shapes(a: Seq<Seq<u8>>, env: &ParseEnv)
    requires
        called(a, "HELLO"@),
    ensures
        a.len() == 1 ==>
            makes(a, env, CommandView::Hello { proto: None, auth: None, setname: None }),
        a.len() == 2 && i64_of(a[1]) is Some ==>
            makes(
                a,
                env,
                CommandView::Hello { proto: Some(i64_of(a[1])->0), auth: None, setname: None },
            ),
        a.len() == 5 && i64_of(a[1]) is Some && upper_word(a[2]) == "AUTH"@ ==>
            makes(
                a,
                env,
                CommandView::Hello {
                    proto: Some(i64_of(a[1])->0),
                    auth: Some((lossy_text(a[3]), lossy_text(a[4]))),
                    setname: None,
                },
            ),
        a.len() == 4 && i64_of(a[1]) is Some && upper_word(a[2]) == "SETNAME"@ ==>
            makes(
                a,
                env,
                CommandView::Hello {
                    proto: Some(i64_of(a[1])->0),
                    auth: None,
                    setname: Some(lossy_text(a[3])),
                },
            ),
{
    reveal(verdict);
    lemma_called(a);
    assert(named_command_spec(upper_word(a[0]), unnamed(a), env) == hello_spec(unnamed(a))) by {
        lemma_reach_modules(upper_word(a[0]), unnamed(a), env);
        lemma_modules_codes();
    }
    reveal(name_code);
    reveal_strlit("AUTH");
    reveal_strlit("SETNAME");
    assert(name_code("AUTH"@) == 7183453600674104);
    assert(name_code("SETNAME"@) == 9155713153772907);
    reveal_with_fuel(hello_options, 3);
}

} // verus!
