//! What some commands on probabilistic sketches are made of, shape by shape.
use vstd::prelude::*;

use crate::build::named_command_spec;
use crate::build::naming::{lemma_reach_sketches, lemma_sketches_codes, name_code};
use crate::build::sketches::{cms_incrby_spec, cms_increments};
use crate::command::CommandView;
use crate::lists::counted;
use crate::numbers::u64_of;
use crate::readings::ParseEnv;
use crate::resp::unnamed;
use crate::text::upper_word;
use super::{called, lemma_called, makes, verdict};

verus! {

/// Items and how often they are counted.
pub proof fn law_cms_incrby_shapes(a: Seq<Seq<u8>>, env: &ParseEnv)
    requires
        called(a, "CMS.INCRBY"@),
        a.len() == 4,
        u64_of(a[3]) is Some,
    ensures
        makes(a, env, CommandView::CmsIncrby { key: a[1], pairs: seq![(a[2], u64_of(a[3])->0)] }),
{
    reveal(verdict);
    lemma_called(a);
    assert(named_command_spec(
        upper_word(a[0]),
        unnamed(a),
        env,
    ) == cms_incrby_spec(unnamed(a))) by {
        lemma_reach_sketches(upper_word(a[0]), unnamed(a), env);
        lemma_sketches_codes();
    }
    reveal_with_fuel(cms_increments, 3);
    assert(Seq::<(Seq<u8>, u64)>::empty().push((a[2], u64_of(a[3])->0)) =~= seq![(a[2], u64_of(a[3])->0)]);
}

} // verus!
