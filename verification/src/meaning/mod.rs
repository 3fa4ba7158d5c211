//! What the words of a command stand for, word by word: which command they make, and what is
//! complained of where they make none.

pub mod admin;
pub mod admin_shapes;
pub mod bits;
pub mod channels;
pub mod fulltext;
pub mod fulltext_shapes;
pub mod geo;
pub mod geo_options;
pub mod geo_shapes;
pub mod hashes;
pub mod hashes_options;
pub mod json;
pub mod json_shapes;
pub mod keyspace;
pub mod keyspace_options;
pub mod kinds;
pub mod lines;
pub mod listcmds;
pub mod listcmds_options;
pub mod modules;
pub mod modules_shapes;
pub mod operands;
pub mod server;
pub mod server_shapes;
pub mod sets;
pub mod sets_options;
pub mod sketches;
pub mod sketches_shapes;
pub mod streams;
pub mod streams_shapes;
pub mod strings;
pub mod strings_options;
pub mod strings_shapes;
pub mod weights;
pub mod zadd;
pub mod zsets;
pub mod zsets_options;
pub mod zsets_shapes;

use vstd::prelude::*;

use crate::command::CommandView;
use crate::readings::ParseEnv;
use crate::resp::{build_command_spec, unnamed};
use crate::text::upper_word;

verus! {

/// Whether the first word, in whatever case, is a name.
pub open spec fn called(a: Seq<Seq<u8>>, name: Seq<char>) -> bool {
    a.len() > 0 && upper_word(a[0]) == name
}

/// What comes of words: what `build_command` gives for them.
#[verifier::opaque]
pub open spec fn verdict(a: Seq<Seq<u8>>, env: &ParseEnv) -> Result<
    Option<CommandView>,
    Seq<char>,
> {
    build_command_spec(a, env)
}

/// Whether words make a command.
pub open spec fn makes(a: Seq<Seq<u8>>, env: &ParseEnv, c: CommandView) -> bool {
    verdict(a, env) == Ok::<Option<CommandView>, Seq<char>>(Some(c))
}

/// Whether words are refused, with a complaint.
pub open spec fn refuses(a: Seq<Seq<u8>>, env: &ParseEnv, complaint: Seq<char>) -> bool {
    verdict(a, env) == Err::<Option<CommandView>, Seq<char>>(complaint)
}

/// Behind the name the words are as they came.
pub(crate) proof fn lemma_called(a: Seq<Seq<u8>>)
    requires
        a.len() > 0,
    ensures
        unnamed(a).len() == a.len(),
        forall|i: int| 1 <= i < a.len() ==> #[trigger] unnamed(a)[i] == a[i],
        forall|k: int| 1 <= k <= a.len() ==> #[trigger] unnamed(a).skip(k) == a.skip(k),
        forall|i: int, j: int|
            1 <= i <= j <= a.len() ==> #[trigger] unnamed(a).subrange(i, j) == a.subrange(i, j),
{
    assert forall|k: int| 1 <= k <= a.len() implies #[trigger] unnamed(a).skip(k) == a.skip(k) by {
        assert(unnamed(a).skip(k) =~= a.skip(k));
    }
    assert forall|i: int, j: int| 1 <= i <= j <= a.len() implies #[trigger] unnamed(a).subrange(
        i,
        j,
    ) == a.subrange(i, j) by {
        assert(unnamed(a).subrange(i, j) =~= a.subrange(i, j));
    }
}

/// Words behind words stand where those end.
pub(crate) proof fn lemma_tail(a: Seq<Seq<u8>>, more: Seq<Seq<u8>>)
    requires
        a.len() > 0,
    ensures
        (unnamed(a) + more).len() == a.len() + more.len(),
        forall|i: int|
            0 <= i < more.len() ==> #[trigger] more[i] == (unnamed(a) + more)[a.len() + i],
{
}

} // verus!
