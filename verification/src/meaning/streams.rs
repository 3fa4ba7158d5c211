//! What the commands on streams stand for.
use vstd::prelude::*;

use crate::build::named_command_spec;
use crate::build::naming::{lemma_reach_streams, lemma_streams_codes, name_code};
use crate::build::streams::{
    first_id_spec, last_id_spec, xack_spec, xadd_spec, xdel_spec, xgroup_spec, xlen_spec,
    xpending_spec, xrange_spec, xread_spec, xreadgroup_spec, xrevrange_spec, xtrim_spec,
};
use crate::command::CommandView;
use crate::numbers::usize_of;
use crate::readings::ParseEnv;
use crate::resp::unnamed;
use crate::text::{lossy_text, spells, upper_word};
use super::{called, lemma_called, makes, refuses, verdict};

verus! {

/// What `XADD` stands for, up to its options.
pub proof fn law_xadd(a: Seq<Seq<u8>>, env: &ParseEnv)
    requires
        called(a, "XADD"@),
    ensures
        a.len() < 4 ==> refuses(a, env, "wrong number of arguments for 'xadd' command"@),
{
    reveal(verdict);
    lemma_called(a);
    assert(named_command_spec(upper_word(a[0]), unnamed(a), env) == xadd_spec(unnamed(a))) by {
        lemma_reach_streams(upper_word(a[0]), unnamed(a), env);
        lemma_streams_codes();
    }
}

/// What `XLEN` stands for.
pub proof fn law_xlen(a: Seq<Seq<u8>>, env: &ParseEnv)
    requires
        called(a, "XLEN"@),
    ensures
        a.len() != 2 ==> refuses(a, env, "wrong number of arguments for 'xlen' command"@),
        a.len() == 2 ==> makes(a, env, CommandView::Xlen(a[1])),
{
    reveal(verdict);
    lemma_called(a);
    assert(named_command_spec(upper_word(a[0]), unnamed(a), env) == xlen_spec(unnamed(a))) by {
        lemma_reach_streams(upper_word(a[0]), unnamed(a), env);
        lemma_streams_codes();
    }
}

/// What `XRANGE` stands for.
pub proof fn law_xrange(a: Seq<Seq<u8>>, env: &ParseEnv)
    requires
        called(a, "XRANGE"@),
    ensures
        (a.len() < 4 || a.len() > 6) ==>
            refuses(a, env, "wrong number of arguments for 'xrange' command"@),
        a.len() == 6 && upper_word(a[4]) != "COUNT"@ ==> refuses(a, env, "syntax error"@),
        a.len() == 6 && upper_word(a[4]) == "COUNT"@ && usize_of(a[5]) is None ==>
            refuses(a, env, "value is not an integer or out of range"@),
        a.len() == 6 && upper_word(a[4]) == "COUNT"@ && usize_of(a[5]) is Some ==>
            makes(
                a,
                env,
                CommandView::Xrange {
                    key: a[1],
                    start: lossy_text(a[2]),
                    end: lossy_text(a[3]),
                    count: Some(usize_of(a[5])->0),
                },
            ),
        a.len() >= 4 && a.len() <= 6 && a.len() != 6 && a.len() != 4 ==>
            refuses(a, env, "syntax error"@),
        a.len() == 4 ==>
            makes(
                a,
                env,
                CommandView::Xrange {
                    key: a[1],
                    start: lossy_text(a[2]),
                    end: lossy_text(a[3]),
                    count: None,
                },
            ),
{
    reveal(verdict);
    lemma_called(a);
    assert(named_command_spec(upper_word(a[0]), unnamed(a), env) == xrange_spec(unnamed(a))) by {
        lemma_reach_streams(upper_word(a[0]), unnamed(a), env);
        lemma_streams_codes();
    }
}

/// What `XREVRANGE` stands for.
pub proof fn law_xrevrange(a: Seq<Seq<u8>>, env: &ParseEnv)
    requires
        called(a, "XREVRANGE"@),
    ensures
        (a.len() < 4 || a.len() > 6) ==>
            refuses(a, env, "wrong number of arguments for 'xrevrange' command"@),
        a.len() == 6 && upper_word(a[4]) != "COUNT"@ ==> refuses(a, env, "syntax error"@),
        a.len() == 6 && upper_word(a[4]) == "COUNT"@ && usize_of(a[5]) is None ==>
            refuses(a, env, "value is not an integer or out of range"@),
        a.len() == 6 && upper_word(a[4]) == "COUNT"@ && usize_of(a[5]) is Some ==>
            makes(
                a,
                env,
                CommandView::Xrevrange {
                    key: a[1],
                    end: lossy_text(a[2]),
                    start: lossy_text(a[3]),
                    count: Some(usize_of(a[5])->0),
                },
            ),
        a.len() >= 4 && a.len() <= 6 && a.len() != 6 && a.len() != 4 ==>
            refuses(a, env, "syntax error"@),
        a.len() == 4 ==>
            makes(
                a,
                env,
                CommandView::Xrevrange {
                    key: a[1],
                    end: lossy_text(a[2]),
                    start: lossy_text(a[3]),
                    count: None,
                },
            ),
{
    reveal(verdict);
    lemma_called(a);
    assert(named_command_spec(upper_word(a[0]), unnamed(a), env) == xrevrange_spec(unnamed(a))) by {
        lemma_reach_streams(upper_word(a[0]), unnamed(a), env);
        lemma_streams_codes();
    }
}

/// What `XREAD` stands for, up to its options.
pub proof fn law_xread(a: Seq<Seq<u8>>, env: &ParseEnv)
    requires
        called(a, "XREAD"@),
    ensures
        a.len() < 4 ==> refuses(a, env, "wrong number of arguments for 'xread' command"@),
{
    reveal(verdict);
    lemma_called(a);
    assert(named_command_spec(upper_word(a[0]), unnamed(a), env) == xread_spec(unnamed(a))) by {
        lemma_reach_streams(upper_word(a[0]), unnamed(a), env);
        lemma_streams_codes();
    }
}

/// What `XREADGROUP` stands for, up to its options.
pub proof fn law_xreadgroup(a: Seq<Seq<u8>>, env: &ParseEnv)
    requires
        called(a, "XREADGROUP"@),
    ensures
        a.len() < 6 ==> refuses(a, env, "wrong number of arguments for 'xreadgroup' command"@),
        a.len() >= 6 && !spells(a[1], "GROUP"@) ==> refuses(a, env, "syntax error"@),
{
    reveal(verdict);
    lemma_called(a);
    assert(named_command_spec(
        upper_word(a[0]),
        unnamed(a),
        env,
    ) == xreadgroup_spec(unnamed(a))) by {
        lemma_reach_streams(upper_word(a[0]), unnamed(a), env);
        lemma_streams_codes();
    }
}

/// What `XDEL` stands for, up to its options.
pub proof fn law_xdel(a: Seq<Seq<u8>>, env: &ParseEnv)
    requires
        called(a, "XDEL"@),
    ensures
        a.len() < 3 ==> refuses(a, env, "wrong number of arguments for 'xdel' command"@),
{
    reveal(verdict);
    lemma_called(a);
    assert(named_command_spec(upper_word(a[0]), unnamed(a), env) == xdel_spec(unnamed(a))) by {
        lemma_reach_streams(upper_word(a[0]), unnamed(a), env);
        lemma_streams_codes();
    }
}

/// What `XACK` stands for, up to its options.
pub proof fn law_xack(a: Seq<Seq<u8>>, env: &ParseEnv)
    requires
        called(a, "XACK"@),
    ensures
        a.len() < 4 ==> refuses(a, env, "wrong number of arguments for 'xack' command"@),
{
    reveal(verdict);
    lemma_called(a);
    assert(named_command_spec(upper_word(a[0]), unnamed(a), env) == xack_spec(unnamed(a))) by {
        lemma_reach_streams(upper_word(a[0]), unnamed(a), env);
        lemma_streams_codes();
    }
}

/// What `XTRIM` stands for, up to its options.
pub proof fn law_xtrim(a: Seq<Seq<u8>>, env: &ParseEnv)
    requires
        called(a, "XTRIM"@),
    ensures
        a.len() < 4 ==> refuses(a, env, "wrong number of arguments for 'xtrim' command"@),
{
    reveal(verdict);
    lemma_called(a);
    assert(named_command_spec(upper_word(a[0]), unnamed(a), env) == xtrim_spec(unnamed(a))) by {
        lemma_reach_streams(upper_word(a[0]), unnamed(a), env);
        lemma_streams_codes();
    }
}

/// What `XGROUP` stands for, up to its options.
pub proof fn law_xgroup(a: Seq<Seq<u8>>, env: &ParseEnv)
    requires
        called(a, "XGROUP"@),
    ensures
        a.len() < 2 ==> refuses(a, env, "wrong number of arguments for 'xgroup' command"@),
        a.len() >= 2 && upper_word(a[1]) == "CREATE"@ && a.len() < 5 ==>
            refuses(a, env, "wrong number of arguments for 'xgroup create' command"@),
        a.len() >= 2 && upper_word(a[1]) == "DESTROY"@ && a.len() < 4 ==>
            refuses(a, env, "wrong number of arguments for 'xgroup destroy' command"@),
        a.len() >= 4 && upper_word(a[1]) == "DESTROY"@ ==>
            makes(a, env, CommandView::XgroupDestroy { key: a[2], group: a[3] }),
        a.len() >= 2 && upper_word(a[1]) == "CREATECONSUMER"@ && a.len() < 5 ==>
            refuses(a, env, "wrong number of arguments for 'xgroup createconsumer' command"@),
        a.len() >= 5 && upper_word(a[1]) == "CREATECONSUMER"@ ==>
            makes(
                a,
                env,
                CommandView::XgroupCreateConsumer { key: a[2], group: a[3], consumer: a[4] },
            ),
        a.len() >= 2 && upper_word(a[1]) == "DELCONSUMER"@ && a.len() < 5 ==>
            refuses(a, env, "wrong number of arguments for 'xgroup delconsumer' command"@),
        a.len() >= 5 && upper_word(a[1]) == "DELCONSUMER"@ ==>
            makes(
                a,
                env,
                CommandView::XgroupDelConsumer { key: a[2], group: a[3], consumer: a[4] },
            ),
        a.len() >= 2 && upper_word(a[1]) != "CREATE"@ && upper_word(a[1]) != "DESTROY"@
            && upper_word(a[1]) != "CREATECONSUMER"@ && upper_word(a[1]) != "DELCONSUMER"@ ==>
            makes(a, env, CommandView::Unknown("XGROUP "@ + upper_word(a[1]))),
{
    reveal(verdict);
    lemma_called(a);
    assert(named_command_spec(upper_word(a[0]), unnamed(a), env) == xgroup_spec(unnamed(a))) by {
        lemma_reach_streams(upper_word(a[0]), unnamed(a), env);
        lemma_streams_codes();
    }
    reveal(name_code);
    reveal_strlit("CREATE");
    reveal_strlit("CREATECONSUMER");
    reveal_strlit("DELCONSUMER");
    reveal_strlit("DESTROY");
    assert(name_code("CREATE"@) == 7402056144185706);
    assert(name_code("CREATECONSUMER"@) == 7402056143802914);
    assert(name_code("DELCONSUMER"@) == 7506427263521311);
    assert(name_code("DESTROY"@) == 7506455791598607);
}

/// What `XPENDING` stands for.
pub proof fn law_xpending(a: Seq<Seq<u8>>, env: &ParseEnv)
    requires
        called(a, "XPENDING"@),
    ensures
        a.len() < 3 ==> refuses(a, env, "wrong number of arguments for 'xpending' command"@),
        a.len() == 3 ==>
            makes(a, env, CommandView::Xpending { key: a[1], group: a[2], range: None }),
        a.len() >= 3 && a.len() != 3
            && a.len() < (if spells(a[3], "IDLE"@) { 5int } else { 3int }) + 3 ==>
            refuses(a, env, "syntax error"@),
        a.len() >= 3 && a.len() != 3
            && a.len() >= (if spells(a[3], "IDLE"@) { 5int } else { 3int }) + 3
            && first_id_spec(a[(if spells(a[3], "IDLE"@) { 5int } else { 3int })]) is Err ==>
            refuses(
                a,
                env,
                (first_id_spec(a[(if spells(a[3], "IDLE"@) { 5int } else { 3int })])->Err_0),
            ),
        a.len() >= 3 && a.len() != 3
            && a.len() >= (if spells(a[3], "IDLE"@) { 5int } else { 3int }) + 3
            && first_id_spec(a[(if spells(a[3], "IDLE"@) { 5int } else { 3int })]) is Ok
            && last_id_spec(a[(if spells(a[3], "IDLE"@) { 5int } else { 3int }) + 1]) is Err ==>
            refuses(
                a,
                env,
                (last_id_spec(a[(if spells(a[3], "IDLE"@) { 5int } else { 3int }) + 1])->Err_0),
            ),
        a.len() >= 3 && a.len() != 3
            && a.len() >= (if spells(a[3], "IDLE"@) { 5int } else { 3int }) + 3
            && first_id_spec(a[(if spells(a[3], "IDLE"@) { 5int } else { 3int })]) is Ok
            && last_id_spec(a[(if spells(a[3], "IDLE"@) { 5int } else { 3int }) + 1]) is Ok
            && usize_of(a[(if spells(a[3], "IDLE"@) { 5int } else { 3int }) + 2]) is None ==>
            refuses(a, env, "value is not an integer or out of range"@),
        a.len() >= 3 && a.len() != 3
            && a.len() >= (if spells(a[3], "IDLE"@) { 5int } else { 3int }) + 3
            && first_id_spec(a[(if spells(a[3], "IDLE"@) { 5int } else { 3int })]) is Ok
            && last_id_spec(a[(if spells(a[3], "IDLE"@) { 5int } else { 3int }) + 1]) is Ok
            && usize_of(a[(if spells(a[3], "IDLE"@) { 5int } else { 3int }) + 2]) is Some
            && a.len() > (if spells(a[3], "IDLE"@) { 5int } else { 3int }) + 3 ==>
            makes(
                a,
                env,
                CommandView::Xpending {
                    key: a[1],
                    group: a[2],
                    range: Some(
                        (
                            (first_id_spec(a[(if spells(a[3], "IDLE"@) { 5int } else { 3int })])->Ok_0),
                            (last_id_spec(a[(if spells(a[3], "IDLE"@) { 5int } else { 3int }) + 1])->Ok_0),
                            (usize_of(a[(if spells(a[3], "IDLE"@) { 5int } else { 3int }) + 2])->0),
                            Some(a[(if spells(a[3], "IDLE"@) { 5int } else { 3int }) + 3]),
                        ),
                    ),
                },
            ),
        a.len() >= 3 && a.len() != 3
            && a.len() >= (if spells(a[3], "IDLE"@) { 5int } else { 3int }) + 3
            && first_id_spec(a[(if spells(a[3], "IDLE"@) { 5int } else { 3int })]) is Ok
            && last_id_spec(a[(if spells(a[3], "IDLE"@) { 5int } else { 3int }) + 1]) is Ok
            && usize_of(a[(if spells(a[3], "IDLE"@) { 5int } else { 3int }) + 2]) is Some
            && a.len() <= (if spells(a[3], "IDLE"@) { 5int } else { 3int }) + 3 ==>
            makes(
                a,
                env,
                CommandView::Xpending {
                    key: a[1],
                    group: a[2],
                    range: Some(
                        (
                            (first_id_spec(a[(if spells(a[3], "IDLE"@) { 5int } else { 3int })])->Ok_0),
                            (last_id_spec(a[(if spells(a[3], "IDLE"@) { 5int } else { 3int }) + 1])->Ok_0),
                            (usize_of(a[(if spells(a[3], "IDLE"@) { 5int } else { 3int }) + 2])->0),
                            None,
                        ),
                    ),
                },
            ),
{
    reveal(verdict);
    lemma_called(a);
    assert(named_command_spec(upper_word(a[0]), unnamed(a), env) == xpending_spec(unnamed(a))) by {
        lemma_reach_streams(upper_word(a[0]), unnamed(a), env);
        lemma_streams_codes();
    }
}

} // verus!
