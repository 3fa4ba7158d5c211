//! What some commands on full-text search are made of, shape by shape.
use vstd::prelude::*;

use crate::build::named_command_spec;
use crate::build::fulltext::{
    create_options, ft_create_spec, ft_search_spec, search_options, search_params,
};
use crate::build::naming::{lemma_fulltext_codes, lemma_reach_fulltext, name_code};
use crate::command::CommandView;
use crate::lists::{contents, lossy_texts};
use crate::numbers::usize_of;
use crate::readings::ParseEnv;
use crate::resp::unnamed;
use crate::search::{SearchOptionsView, put};
use crate::text::{lossy_text, upper_word};
use super::{called, lemma_called, makes, verdict};

verus! {

/// A bare search gives the first ten hits with their contents, in the order of their scores.
pub proof fn law_ft_search_bare(a: Seq<Seq<u8>>, env: &ParseEnv)
    requires
        called(a, "FT.SEARCH"@),
        a.len() == 3,
    ensures
        makes(
            a,
            env,
            CommandView::FtSearch {
                index: lossy_text(a[1]),
                query: lossy_text(a[2]),
                options: SearchOptionsView {
                    offset: 0usize,
                    limit: 10usize,
                    nocontent: false,
                    sortby: None,
                    return_fields: None,
                    params: Seq::empty(),
                },
            },
        ),
{
    reveal(verdict);
    lemma_called(a);
    assert(named_command_spec(upper_word(a[0]), unnamed(a), env) == ft_search_spec(unnamed(a))) by {
        lemma_reach_fulltext(upper_word(a[0]), unnamed(a), env);
        lemma_fulltext_codes();
    }
    reveal_with_fuel(search_options, 3);
}

/// A search without contents.
pub proof fn law_ft_search_nocontent(a: Seq<Seq<u8>>, env: &ParseEnv)
    requires
        called(a, "FT.SEARCH"@),
        a.len() == 4,
        upper_word(a[3]) == "NOCONTENT"@,
    ensures
        makes(
            a,
            env,
            CommandView::FtSearch {
                index: lossy_text(a[1]),
                query: lossy_text(a[2]),
                options: SearchOptionsView {
                    offset: 0usize,
                    limit: 10usize,
                    nocontent: true,
                    sortby: None,
                    return_fields: None,
                    params: Seq::empty(),
                },
            },
        ),
{
    reveal(verdict);
    lemma_called(a);
    assert(named_command_spec(upper_word(a[0]), unnamed(a), env) == ft_search_spec(unnamed(a))) by {
        lemma_reach_fulltext(upper_word(a[0]), unnamed(a), env);
        lemma_fulltext_codes();
    }
    reveal(name_code);
    reveal_strlit("ASC");
    reveal_strlit("DESC");
    reveal_strlit("LIMIT");
    reveal_strlit("NOCONTENT");
    reveal_strlit("PARAMS");
    reveal_strlit("RETURN");
    reveal_strlit("SORTBY");
    assert(name_code("ASC"@) == 7182473811232103);
    assert(name_code("DESC"@) == 7506426752698104);
    assert(name_code("LIMIT"@) == 8387764107911705);
    assert(name_code("NOCONTENT"@) == 8610254030803709);
    assert(name_code("PARAMS"@) == 8824119907462506);
    assert(name_code("RETURN"@) == 9045773741730106);
    assert(name_code("SORTBY"@) == 9160018265762006);
    reveal_with_fuel(search_options, 3);
}

/// A page of a search.
pub proof fn law_ft_search_limit(a: Seq<Seq<u8>>, env: &ParseEnv)
    requires
        called(a, "FT.SEARCH"@),
        a.len() == 6,
        upper_word(a[3]) == "LIMIT"@,
        usize_of(a[4]) is Some,
        usize_of(a[5]) is Some,
    ensures
        makes(
            a,
            env,
            CommandView::FtSearch {
                index: lossy_text(a[1]),
                query: lossy_text(a[2]),
                options: SearchOptionsView {
                    offset: usize_of(a[4])->0,
                    limit: usize_of(a[5])->0,
                    nocontent: false,
                    sortby: None,
                    return_fields: None,
                    params: Seq::empty(),
                },
            },
        ),
{
    reveal(verdict);
    lemma_called(a);
    assert(named_command_spec(upper_word(a[0]), unnamed(a), env) == ft_search_spec(unnamed(a))) by {
        lemma_reach_fulltext(upper_word(a[0]), unnamed(a), env);
        lemma_fulltext_codes();
    }
    reveal(name_code);
    reveal_strlit("ASC");
    reveal_strlit("DESC");
    reveal_strlit("LIMIT");
    reveal_strlit("NOCONTENT");
    reveal_strlit("PARAMS");
    reveal_strlit("RETURN");
    reveal_strlit("SORTBY");
    assert(name_code("ASC"@) == 7182473811232103);
    assert(name_code("DESC"@) == 7506426752698104);
    assert(name_code("LIMIT"@) == 8387764107911705);
    assert(name_code("NOCONTENT"@) == 8610254030803709);
    assert(name_code("PARAMS"@) == 8824119907462506);
    assert(name_code("RETURN"@) == 9045773741730106);
    assert(name_code("SORTBY"@) == 9160018265762006);
    reveal_with_fuel(search_options, 3);
}

/// A search that is ordered by a field, upwards unless told otherwise.
pub proof fn law_ft_search_sortby(a: Seq<Seq<u8>>, env: &ParseEnv)
    requires
        called(a, "FT.SEARCH"@),
        a.len() >= 5,
        upper_word(a[3]) == "SORTBY"@,
    ensures
        a.len() == 5 ==>
            makes(
                a,
                env,
                CommandView::FtSearch {
                    index: lossy_text(a[1]),
                    query: lossy_text(a[2]),
                    options: SearchOptionsView {
                        offset: 0usize,
                        limit: 10usize,
                        nocontent: false,
                        sortby: Some((lossy_text(a[4]), true)),
                        return_fields: None,
                        params: Seq::empty(),
                    },
                },
            ),
        a.len() == 6 && upper_word(a[5]) == "ASC"@ ==>
            makes(
                a,
                env,
                CommandView::FtSearch {
                    index: lossy_text(a[1]),
                    query: lossy_text(a[2]),
                    options: SearchOptionsView {
                        offset: 0usize,
                        limit: 10usize,
                        nocontent: false,
                        sortby: Some((lossy_text(a[4]), true)),
                        return_fields: None,
                        params: Seq::empty(),
                    },
                },
            ),
        a.len() == 6 && upper_word(a[5]) == "DESC"@ ==>
            makes(
                a,
                env,
                CommandView::FtSearch {
                    index: lossy_text(a[1]),
                    query: lossy_text(a[2]),
                    options: SearchOptionsView {
                        offset: 0usize,
                        limit: 10usize,
                        nocontent: false,
                        sortby: Some((lossy_text(a[4]), false)),
                        return_fields: None,
                        params: Seq::empty(),
                    },
                },
            ),
{
    reveal(verdict);
    lemma_called(a);
    assert(named_command_spec(upper_word(a[0]), unnamed(a), env) == ft_search_spec(unnamed(a))) by {
        lemma_reach_fulltext(upper_word(a[0]), unnamed(a), env);
        lemma_fulltext_codes();
    }
    reveal(name_code);
    reveal_strlit("ASC");
    reveal_strlit("DESC");
    reveal_strlit("LIMIT");
    reveal_strlit("NOCONTENT");
    reveal_strlit("PARAMS");
    reveal_strlit("RETURN");
    reveal_strlit("SORTBY");
    assert(name_code("ASC"@) == 7182473811232103);
    assert(name_code("DESC"@) == 7506426752698104);
    assert(name_code("LIMIT"@) == 8387764107911705);
    assert(name_code("NOCONTENT"@) == 8610254030803709);
    assert(name_code("PARAMS"@) == 8824119907462506);
    assert(name_code("RETURN"@) == 9045773741730106);
    assert(name_code("SORTBY"@) == 9160018265762006);
    reveal_with_fuel(search_options, 3);
}

/// A search that gives some fields, as many as are announced.
pub proof fn law_ft_search_return(a: Seq<Seq<u8>>, env: &ParseEnv)
    requires
        called(a, "FT.SEARCH"@),
        a.len() >= 5,
        upper_word(a[3]) == "RETURN"@,
        usize_of(a[4]) is Some,
        a.len() == 5 + usize_of(a[4])->0,
    ensures
        makes(
            a,
            env,
            CommandView::FtSearch {
                index: lossy_text(a[1]),
                query: lossy_text(a[2]),
                options: SearchOptionsView {
                    offset: 0usize,
                    limit: 10usize,
                    nocontent: false,
                    sortby: None,
                    return_fields: Some(lossy_texts(a.skip(5))),
                    params: Seq::empty(),
                },
            },
        ),
{
    reveal(verdict);
    lemma_called(a);
    assert(named_command_spec(upper_word(a[0]), unnamed(a), env) == ft_search_spec(unnamed(a))) by {
        lemma_reach_fulltext(upper_word(a[0]), unnamed(a), env);
        lemma_fulltext_codes();
    }
    reveal(name_code);
    reveal_strlit("ASC");
    reveal_strlit("DESC");
    reveal_strlit("LIMIT");
    reveal_strlit("NOCONTENT");
    reveal_strlit("PARAMS");
    reveal_strlit("RETURN");
    reveal_strlit("SORTBY");
    assert(name_code("ASC"@) == 7182473811232103);
    assert(name_code("DESC"@) == 7506426752698104);
    assert(name_code("LIMIT"@) == 8387764107911705);
    assert(name_code("NOCONTENT"@) == 8610254030803709);
    assert(name_code("PARAMS"@) == 8824119907462506);
    assert(name_code("RETURN"@) == 9045773741730106);
    assert(name_code("SORTBY"@) == 9160018265762006);
    reveal_with_fuel(search_options, 3);
    assert(unnamed(a).subrange(5, a.len() as int) =~= a.skip(5));
}

/// A search with a parameter.
pub proof fn law_ft_search_params(a: Seq<Seq<u8>>, env: &ParseEnv)
    requires
        called(a, "FT.SEARCH"@),
        a.len() == 7,
        upper_word(a[3]) == "PARAMS"@,
        usize_of(a[4]) == Some(2usize),
    ensures
        makes(
            a,
            env,
            CommandView::FtSearch {
                index: lossy_text(a[1]),
                query: lossy_text(a[2]),
                options: SearchOptionsView {
                    offset: 0usize,
                    limit: 10usize,
                    nocontent: false,
                    sortby: None,
                    return_fields: None,
                    params: seq![(lossy_text(a[5]), a[6])],
                },
            },
        ),
{
    reveal(verdict);
    lemma_called(a);
    assert(named_command_spec(upper_word(a[0]), unnamed(a), env) == ft_search_spec(unnamed(a))) by {
        lemma_reach_fulltext(upper_word(a[0]), unnamed(a), env);
        lemma_fulltext_codes();
    }
    reveal(name_code);
    reveal_strlit("ASC");
    reveal_strlit("DESC");
    reveal_strlit("LIMIT");
    reveal_strlit("NOCONTENT");
    reveal_strlit("PARAMS");
    reveal_strlit("RETURN");
    reveal_strlit("SORTBY");
    assert(name_code("ASC"@) == 7182473811232103);
    assert(name_code("DESC"@) == 7506426752698104);
    assert(name_code("LIMIT"@) == 8387764107911705);
    assert(name_code("NOCONTENT"@) == 8610254030803709);
    assert(name_code("PARAMS"@) == 8824119907462506);
    assert(name_code("RETURN"@) == 9045773741730106);
    assert(name_code("SORTBY"@) == 9160018265762006);
    reveal_with_fuel(search_options, 3);
    reveal_with_fuel(search_params, 3);
    assert(put(
        Seq::<(Seq<char>, Seq<u8>)>::empty(),
        lossy_text(a[5]),
        a[6],
    ) =~= seq![(lossy_text(a[5]), a[6])]);
}

/// Options of a search stand beside each other.
pub proof fn law_ft_search_all(a: Seq<Seq<u8>>, env: &ParseEnv)
    requires
        called(a, "FT.SEARCH"@),
        a.len() == 10,
        upper_word(a[3]) == "NOCONTENT"@,
        upper_word(a[4]) == "SORTBY"@,
        upper_word(a[6]) == "DESC"@,
        upper_word(a[7]) == "LIMIT"@,
        usize_of(a[8]) is Some,
        usize_of(a[9]) is Some,
    ensures
        makes(
            a,
            env,
            CommandView::FtSearch {
                index: lossy_text(a[1]),
                query: lossy_text(a[2]),
                options: SearchOptionsView {
                    offset: usize_of(a[8])->0,
                    limit: usize_of(a[9])->0,
                    nocontent: true,
                    sortby: Some((lossy_text(a[5]), false)),
                    return_fields: None,
                    params: Seq::empty(),
                },
            },
        ),
{
    reveal(verdict);
    lemma_called(a);
    assert(named_command_spec(upper_word(a[0]), unnamed(a), env) == ft_search_spec(unnamed(a))) by {
        lemma_reach_fulltext(upper_word(a[0]), unnamed(a), env);
        lemma_fulltext_codes();
    }
    reveal(name_code);
    reveal_strlit("ASC");
    reveal_strlit("DESC");
    reveal_strlit("LIMIT");
    reveal_strlit("NOCONTENT");
    reveal_strlit("PARAMS");
    reveal_strlit("RETURN");
    reveal_strlit("SORTBY");
    assert(name_code("ASC"@) == 7182473811232103);
    assert(name_code("DESC"@) == 7506426752698104);
    assert(name_code("LIMIT"@) == 8387764107911705);
    assert(name_code("NOCONTENT"@) == 8610254030803709);
    assert(name_code("PARAMS"@) == 8824119907462506);
    assert(name_code("RETURN"@) == 9045773741730106);
    assert(name_code("SORTBY"@) == 9160018265762006);
    reveal_with_fuel(search_options, 5);
}

/// An index: its name, what it is on and the prefixes of the keys in it.
pub proof fn law_ft_create_shapes(a: Seq<Seq<u8>>, env: &ParseEnv)
    requires
        called(a, "FT.CREATE"@),
        a.len() >= 8,
        upper_word(a[2]) == "ON"@,
        upper_word(a[4]) == "PREFIX"@,
        usize_of(a[5]) == Some(1usize),
        upper_word(a[7]) == "SCHEMA"@,
    ensures
        verdict(a, env) matches Ok(Some(CommandView::FtCreate { index, on_type, prefixes, .. }))
            && index == lossy_text(a[1]) && on_type == upper_word(a[3])
            && prefixes == seq![lossy_text(a[6])],
{
    reveal(verdict);
    lemma_called(a);
    assert(named_command_spec(
        upper_word(a[0]),
        unnamed(a),
        env,
    ) == ft_create_spec(unnamed(a), env)) by {
        lemma_reach_fulltext(upper_word(a[0]), unnamed(a), env);
        lemma_fulltext_codes();
    }
    reveal(name_code);
    reveal_strlit("ON");
    reveal_strlit("PREFIX");
    reveal_strlit("SCHEMA");
    assert(name_code("ON"@) == 8719642606361602);
    assert(name_code("PREFIX"@) == 8831429773139806);
    assert(name_code("SCHEMA"@) == 9154838982176506);
    reveal_with_fuel(create_options, 4);
    assert(unnamed(a).subrange(6, 7) =~= seq![a[6]]);
    assert(lossy_texts(seq![a[6]]) =~= seq![lossy_text(a[6])]);
    assert(Seq::<Seq<char>>::empty() + seq![lossy_text(a[6])] =~= seq![lossy_text(a[6])]);
}

} // verus!
