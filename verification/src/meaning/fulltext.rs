//! What the commands on full-text search stand for.
use vstd::prelude::*;

use crate::build::named_command_spec;
use crate::build::fulltext::{
    ft_add_spec, ft_aggregate_spec, ft_create_spec, ft_dropindex_spec, ft_explain_spec,
    ft_info_spec, ft_search_spec,
};
use crate::build::naming::{lemma_fulltext_codes, lemma_reach_fulltext};
use crate::command::CommandView;
use crate::readings::ParseEnv;
use crate::resp::unnamed;
use crate::text::{lossy_text, upper_word};
use super::{called, lemma_called, makes, refuses, verdict};

verus! {

/// What `FT.CREATE` stands for, up to its options.
pub proof fn law_ft_create(a: Seq<Seq<u8>>, env: &ParseEnv)
    requires
        called(a, "FT.CREATE"@),
    ensures
        a.len() < 4 ==> refuses(a, env, "wrong number of arguments for 'ft.create' command"@),
{
    reveal(verdict);
    lemma_called(a);
    assert(named_command_spec(
        upper_word(a[0]),
        unnamed(a),
        env,
    ) == ft_create_spec(unnamed(a), env)) by {
        lemma_reach_fulltext(upper_word(a[0]), unnamed(a), env);
        lemma_fulltext_codes();
    }
}

/// What `FT.SEARCH` stands for, up to its options.
pub proof fn law_ft_search(a: Seq<Seq<u8>>, env: &ParseEnv)
    requires
        called(a, "FT.SEARCH"@),
    ensures
        a.len() < 3 ==> refuses(a, env, "wrong number of arguments for 'ft.search' command"@),
{
    reveal(verdict);
    lemma_called(a);
    assert(named_command_spec(upper_word(a[0]), unnamed(a), env) == ft_search_spec(unnamed(a))) by {
        lemma_reach_fulltext(upper_word(a[0]), unnamed(a), env);
        lemma_fulltext_codes();
    }
}

/// What `FT.AGGREGATE` stands for, up to its options.
pub proof fn law_ft_aggregate(a: Seq<Seq<u8>>, env: &ParseEnv)
    requires
        called(a, "FT.AGGREGATE"@),
    ensures
        a.len() < 3 ==> refuses(a, env, "wrong number of arguments for 'ft.aggregate' command"@),
{
    reveal(verdict);
    lemma_called(a);
    assert(named_command_spec(
        upper_word(a[0]),
        unnamed(a),
        env,
    ) == ft_aggregate_spec(unnamed(a))) by {
        lemma_reach_fulltext(upper_word(a[0]), unnamed(a), env);
        lemma_fulltext_codes();
    }
}

/// What `FT.INFO` stands for.
pub proof fn law_ft_info(a: Seq<Seq<u8>>, env: &ParseEnv)
    requires
        called(a, "FT.INFO"@),
    ensures
        a.len() != 2 ==> refuses(a, env, "wrong number of arguments for 'ft.info' command"@),
        a.len() == 2 ==> makes(a, env, CommandView::FtInfo(lossy_text(a[1]))),
{
    reveal(verdict);
    lemma_called(a);
    assert(named_command_spec(upper_word(a[0]), unnamed(a), env) == ft_info_spec(unnamed(a))) by {
        lemma_reach_fulltext(upper_word(a[0]), unnamed(a), env);
        lemma_fulltext_codes();
    }
}

/// What `FT.DROPINDEX` stands for.
pub proof fn law_ft_dropindex(a: Seq<Seq<u8>>, env: &ParseEnv)
    requires
        called(a, "FT.DROPINDEX"@),
    ensures
        a.len() < 2 ==> refuses(a, env, "wrong number of arguments for 'ft.dropindex' command"@),
        a.len() >= 3 ==>
            makes(
                a,
                env,
                CommandView::FtDropIndex { index: lossy_text(a[1]), dd: upper_word(a[2]) == "DD"@ },
            ),
        a.len() >= 2 && a.len() < 3 ==>
            makes(a, env, CommandView::FtDropIndex { index: lossy_text(a[1]), dd: false }),
{
    reveal(verdict);
    lemma_called(a);
    assert(named_command_spec(
        upper_word(a[0]),
        unnamed(a),
        env,
    ) == ft_dropindex_spec(unnamed(a))) by {
        lemma_reach_fulltext(upper_word(a[0]), unnamed(a), env);
        lemma_fulltext_codes();
    }
}

/// What `FT.EXPLAIN` stands for.
pub proof fn law_ft_explain(a: Seq<Seq<u8>>, env: &ParseEnv)
    requires
        called(a, "FT.EXPLAIN"@),
    ensures
        a.len() != 3 ==> refuses(a, env, "wrong number of arguments for 'ft.explain' command"@),
        a.len() == 3 ==>
            makes(
                a,
                env,
                CommandView::FtExplain { index: lossy_text(a[1]), query: lossy_text(a[2]) },
            ),
{
    reveal(verdict);
    lemma_called(a);
    assert(named_command_spec(
        upper_word(a[0]),
        unnamed(a),
        env,
    ) == ft_explain_spec(unnamed(a))) by {
        lemma_reach_fulltext(upper_word(a[0]), unnamed(a), env);
        lemma_fulltext_codes();
    }
}

/// What `FT.ADD` stands for, up to its options.
pub proof fn law_ft_add(a: Seq<Seq<u8>>, env: &ParseEnv)
    requires
        called(a, "FT.ADD"@),
    ensures
        a.len() < 5 ==> refuses(a, env, "wrong number of arguments for 'ft.add' command"@),
{
    reveal(verdict);
    lemma_called(a);
    assert(named_command_spec(
        upper_word(a[0]),
        unnamed(a),
        env,
    ) == ft_add_spec(unnamed(a), env)) by {
        lemma_reach_fulltext(upper_word(a[0]), unnamed(a), env);
        lemma_fulltext_codes();
    }
}

} // verus!
