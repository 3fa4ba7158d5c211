//! What the commands on probabilistic sketches stand for.
use vstd::prelude::*;

use crate::build::named_command_spec;
use crate::build::naming::{lemma_reach_sketches, lemma_sketches_codes};
use crate::build::sketches::{
    bf_add_spec, bf_exists_spec, bf_info_spec, bf_madd_spec, bf_mexists_spec, bf_reserve_spec,
    cf_add_spec, cf_addnx_spec, cf_del_spec, cf_exists_spec, cf_info_spec, cf_reserve_spec,
    cms_incrby_spec, cms_info_spec, cms_initbydim_spec, cms_initbyprob_spec, cms_query_spec,
    topk_add_spec, topk_info_spec, topk_list_spec, topk_query_spec, topk_reserve_spec,
};
use crate::command::CommandView;
use crate::numbers::usize_of;
use crate::readings::{ParseEnv, double_of};
use crate::resp::unnamed;
use crate::text::upper_word;
use super::{called, lemma_called, makes, refuses, verdict};

verus! {

/// What `BF.RESERVE` stands for.
pub proof fn law_bf_reserve(a: Seq<Seq<u8>>, env: &ParseEnv)
    requires
        called(a, "BF.RESERVE"@),
    ensures
        a.len() != 4 ==> refuses(a, env, "wrong number of arguments for 'bf.reserve' command"@),
        a.len() == 4 && double_of(env, a[2]) is None ==> refuses(a, env, "not a valid float"@),
        a.len() == 4 && double_of(env, a[2]) is Some && usize_of(a[3]) is None ==>
            refuses(a, env, "not an integer"@),
        a.len() == 4 && double_of(env, a[2]) is Some && usize_of(a[3]) is Some ==>
            makes(
                a,
                env,
                CommandView::BfReserve {
                    key: a[1],
                    error_rate: double_of(env, a[2])->0,
                    capacity: usize_of(a[3])->0,
                },
            ),
{
    reveal(verdict);
    lemma_called(a);
    assert(named_command_spec(
        upper_word(a[0]),
        unnamed(a),
        env,
    ) == bf_reserve_spec(unnamed(a), env)) by {
        lemma_reach_sketches(upper_word(a[0]), unnamed(a), env);
        lemma_sketches_codes();
    }
}

/// What `BF.ADD` stands for.
pub proof fn law_bf_add(a: Seq<Seq<u8>>, env: &ParseEnv)
    requires
        called(a, "BF.ADD"@),
    ensures
        a.len() != 3 ==> refuses(a, env, "wrong number of arguments for 'bf.add' command"@),
        a.len() == 3 ==> makes(a, env, CommandView::BfAdd { key: a[1], item: a[2] }),
{
    reveal(verdict);
    lemma_called(a);
    assert(named_command_spec(upper_word(a[0]), unnamed(a), env) == bf_add_spec(unnamed(a))) by {
        lemma_reach_sketches(upper_word(a[0]), unnamed(a), env);
        lemma_sketches_codes();
    }
}

/// What `BF.EXISTS` stands for.
pub proof fn law_bf_exists(a: Seq<Seq<u8>>, env: &ParseEnv)
    requires
        called(a, "BF.EXISTS"@),
    ensures
        a.len() != 3 ==> refuses(a, env, "wrong number of arguments for 'bf.exists' command"@),
        a.len() == 3 ==> makes(a, env, CommandView::BfExists { key: a[1], item: a[2] }),
{
    reveal(verdict);
    lemma_called(a);
    assert(named_command_spec(upper_word(a[0]), unnamed(a), env) == bf_exists_spec(unnamed(a))) by {
        lemma_reach_sketches(upper_word(a[0]), unnamed(a), env);
        lemma_sketches_codes();
    }
}

/// What `CF.ADD` stands for.
pub proof fn law_cf_add(a: Seq<Seq<u8>>, env: &ParseEnv)
    requires
        called(a, "CF.ADD"@),
    ensures
        a.len() != 3 ==> refuses(a, env, "wrong number of arguments for 'cf.add' command"@),
        a.len() == 3 ==> makes(a, env, CommandView::CfAdd { key: a[1], item: a[2] }),
{
    reveal(verdict);
    lemma_called(a);
    assert(named_command_spec(upper_word(a[0]), unnamed(a), env) == cf_add_spec(unnamed(a))) by {
        lemma_reach_sketches(upper_word(a[0]), unnamed(a), env);
        lemma_sketches_codes();
    }
}

/// What `CF.ADDNX` stands for.
pub proof fn law_cf_addnx(a: Seq<Seq<u8>>, env: &ParseEnv)
    requires
        called(a, "CF.ADDNX"@),
    ensures
        a.len() != 3 ==> refuses(a, env, "wrong number of arguments for 'cf.addnx' command"@),
        a.len() == 3 ==> makes(a, env, CommandView::CfAddnx { key: a[1], item: a[2] }),
{
    reveal(verdict);
    lemma_called(a);
    assert(named_command_spec(upper_word(a[0]), unnamed(a), env) == cf_addnx_spec(unnamed(a))) by {
        lemma_reach_sketches(upper_word(a[0]), unnamed(a), env);
        lemma_sketches_codes();
    }
}

/// What `CF.EXISTS` stands for.
pub proof fn law_cf_exists(a: Seq<Seq<u8>>, env: &ParseEnv)
    requires
        called(a, "CF.EXISTS"@),
    ensures
        a.len() != 3 ==> refuses(a, env, "wrong number of arguments for 'cf.exists' command"@),
        a.len() == 3 ==> makes(a, env, CommandView::CfExists { key: a[1], item: a[2] }),
{
    reveal(verdict);
    lemma_called(a);
    assert(named_command_spec(upper_word(a[0]), unnamed(a), env) == cf_exists_spec(unnamed(a))) by {
        lemma_reach_sketches(upper_word(a[0]), unnamed(a), env);
        lemma_sketches_codes();
    }
}

/// What `CF.DEL` stands for.
pub proof fn law_cf_del(a: Seq<Seq<u8>>, env: &ParseEnv)
    requires
        called(a, "CF.DEL"@),
    ensures
        a.len() != 3 ==> refuses(a, env, "wrong number of arguments for 'cf.del' command"@),
        a.len() == 3 ==> makes(a, env, CommandView::CfDel { key: a[1], item: a[2] }),
{
    reveal(verdict);
    lemma_called(a);
    assert(named_command_spec(upper_word(a[0]), unnamed(a), env) == cf_del_spec(unnamed(a))) by {
        lemma_reach_sketches(upper_word(a[0]), unnamed(a), env);
        lemma_sketches_codes();
    }
}

/// What `BF.MADD` stands for.
pub proof fn law_bf_madd(a: Seq<Seq<u8>>, env: &ParseEnv)
    requires
        called(a, "BF.MADD"@),
    ensures
        a.len() < 3 ==> refuses(a, env, "wrong number of arguments for 'bf.madd' command"@),
        a.len() >= 3 ==> makes(a, env, CommandView::BfMadd { key: a[1], items: a.skip(2) }),
{
    reveal(verdict);
    lemma_called(a);
    assert(named_command_spec(upper_word(a[0]), unnamed(a), env) == bf_madd_spec(unnamed(a))) by {
        lemma_reach_sketches(upper_word(a[0]), unnamed(a), env);
        lemma_sketches_codes();
    }
}

/// What `BF.MEXISTS` stands for.
pub proof fn law_bf_mexists(a: Seq<Seq<u8>>, env: &ParseEnv)
    requires
        called(a, "BF.MEXISTS"@),
    ensures
        a.len() < 3 ==> refuses(a, env, "wrong number of arguments for 'bf.mexists' command"@),
        a.len() >= 3 ==> makes(a, env, CommandView::BfMexists { key: a[1], items: a.skip(2) }),
{
    reveal(verdict);
    lemma_called(a);
    assert(named_command_spec(
        upper_word(a[0]),
        unnamed(a),
        env,
    ) == bf_mexists_spec(unnamed(a))) by {
        lemma_reach_sketches(upper_word(a[0]), unnamed(a), env);
        lemma_sketches_codes();
    }
}

/// What `CMS.QUERY` stands for.
pub proof fn law_cms_query(a: Seq<Seq<u8>>, env: &ParseEnv)
    requires
        called(a, "CMS.QUERY"@),
    ensures
        a.len() < 3 ==> refuses(a, env, "wrong number of arguments for 'cms.query' command"@),
        a.len() >= 3 ==> makes(a, env, CommandView::CmsQuery { key: a[1], items: a.skip(2) }),
{
    reveal(verdict);
    lemma_called(a);
    assert(named_command_spec(upper_word(a[0]), unnamed(a), env) == cms_query_spec(unnamed(a))) by {
        lemma_reach_sketches(upper_word(a[0]), unnamed(a), env);
        lemma_sketches_codes();
    }
}

/// What `TOPK.ADD` stands for.
pub proof fn law_topk_add(a: Seq<Seq<u8>>, env: &ParseEnv)
    requires
        called(a, "TOPK.ADD"@),
    ensures
        a.len() < 3 ==> refuses(a, env, "wrong number of arguments for 'topk.add' command"@),
        a.len() >= 3 ==> makes(a, env, CommandView::TopkAdd { key: a[1], items: a.skip(2) }),
{
    reveal(verdict);
    lemma_called(a);
    assert(named_command_spec(upper_word(a[0]), unnamed(a), env) == topk_add_spec(unnamed(a))) by {
        lemma_reach_sketches(upper_word(a[0]), unnamed(a), env);
        lemma_sketches_codes();
    }
}

/// What `TOPK.QUERY` stands for.
pub proof fn law_topk_query(a: Seq<Seq<u8>>, env: &ParseEnv)
    requires
        called(a, "TOPK.QUERY"@),
    ensures
        a.len() < 3 ==> refuses(a, env, "wrong number of arguments for 'topk.query' command"@),
        a.len() >= 3 ==> makes(a, env, CommandView::TopkQuery { key: a[1], items: a.skip(2) }),
{
    reveal(verdict);
    lemma_called(a);
    assert(named_command_spec(
        upper_word(a[0]),
        unnamed(a),
        env,
    ) == topk_query_spec(unnamed(a))) by {
        lemma_reach_sketches(upper_word(a[0]), unnamed(a), env);
        lemma_sketches_codes();
    }
}

/// What `BF.INFO` stands for.
pub proof fn law_bf_info(a: Seq<Seq<u8>>, env: &ParseEnv)
    requires
        called(a, "BF.INFO"@),
    ensures
        a.len() != 2 ==> refuses(a, env, "wrong number of arguments for 'bf.info' command"@),
        a.len() == 2 ==> makes(a, env, CommandView::BfInfo(a[1])),
{
    reveal(verdict);
    lemma_called(a);
    assert(named_command_spec(upper_word(a[0]), unnamed(a), env) == bf_info_spec(unnamed(a))) by {
        lemma_reach_sketches(upper_word(a[0]), unnamed(a), env);
        lemma_sketches_codes();
    }
}

/// What `CF.INFO` stands for.
pub proof fn law_cf_info(a: Seq<Seq<u8>>, env: &ParseEnv)
    requires
        called(a, "CF.INFO"@),
    ensures
        a.len() != 2 ==> refuses(a, env, "wrong number of arguments for 'cf.info' command"@),
        a.len() == 2 ==> makes(a, env, CommandView::CfInfo(a[1])),
{
    reveal(verdict);
    lemma_called(a);
    assert(named_command_spec(upper_word(a[0]), unnamed(a), env) == cf_info_spec(unnamed(a))) by {
        lemma_reach_sketches(upper_word(a[0]), unnamed(a), env);
        lemma_sketches_codes();
    }
}

/// What `CMS.INFO` stands for.
pub proof fn law_cms_info(a: Seq<Seq<u8>>, env: &ParseEnv)
    requires
        called(a, "CMS.INFO"@),
    ensures
        a.len() != 2 ==> refuses(a, env, "wrong number of arguments for 'cms.info' command"@),
        a.len() == 2 ==> makes(a, env, CommandView::CmsInfo(a[1])),
{
    reveal(verdict);
    lemma_called(a);
    assert(named_command_spec(upper_word(a[0]), unnamed(a), env) == cms_info_spec(unnamed(a))) by {
        lemma_reach_sketches(upper_word(a[0]), unnamed(a), env);
        lemma_sketches_codes();
    }
}

/// What `TOPK.LIST` stands for.
pub proof fn law_topk_list(a: Seq<Seq<u8>>, env: &ParseEnv)
    requires
        called(a, "TOPK.LIST"@),
    ensures
        a.len() != 2 ==> refuses(a, env, "wrong number of arguments for 'topk.list' command"@),
        a.len() == 2 ==> makes(a, env, CommandView::TopkList(a[1])),
{
    reveal(verdict);
    lemma_called(a);
    assert(named_command_spec(upper_word(a[0]), unnamed(a), env) == topk_list_spec(unnamed(a))) by {
        lemma_reach_sketches(upper_word(a[0]), unnamed(a), env);
        lemma_sketches_codes();
    }
}

/// What `TOPK.INFO` stands for.
pub proof fn law_topk_info(a: Seq<Seq<u8>>, env: &ParseEnv)
    requires
        called(a, "TOPK.INFO"@),
    ensures
        a.len() != 2 ==> refuses(a, env, "wrong number of arguments for 'topk.info' command"@),
        a.len() == 2 ==> makes(a, env, CommandView::TopkInfo(a[1])),
{
    reveal(verdict);
    lemma_called(a);
    assert(named_command_spec(upper_word(a[0]), unnamed(a), env) == topk_info_spec(unnamed(a))) by {
        lemma_reach_sketches(upper_word(a[0]), unnamed(a), env);
        lemma_sketches_codes();
    }
}

/// What `CF.RESERVE` stands for.
pub proof fn law_cf_reserve(a: Seq<Seq<u8>>, env: &ParseEnv)
    requires
        called(a, "CF.RESERVE"@),
    ensures
        a.len() != 3 ==> refuses(a, env, "wrong number of arguments for 'cf.reserve' command"@),
        a.len() == 3 && usize_of(a[2]) is None ==> refuses(a, env, "not an integer"@),
        a.len() == 3 && usize_of(a[2]) is Some ==>
            makes(a, env, CommandView::CfReserve { key: a[1], capacity: usize_of(a[2])->0 }),
{
    reveal(verdict);
    lemma_called(a);
    assert(named_command_spec(
        upper_word(a[0]),
        unnamed(a),
        env,
    ) == cf_reserve_spec(unnamed(a))) by {
        lemma_reach_sketches(upper_word(a[0]), unnamed(a), env);
        lemma_sketches_codes();
    }
}

/// What `CMS.INITBYDIM` stands for.
pub proof fn law_cms_initbydim(a: Seq<Seq<u8>>, env: &ParseEnv)
    requires
        called(a, "CMS.INITBYDIM"@),
    ensures
        a.len() != 4 ==> refuses(a, env, "wrong number of arguments for 'cms.initbydim' command"@),
        a.len() == 4 && usize_of(a[2]) is None ==> refuses(a, env, "not an integer"@),
        a.len() == 4 && usize_of(a[2]) is Some && usize_of(a[3]) is None ==>
            refuses(a, env, "not an integer"@),
        a.len() == 4 && usize_of(a[2]) is Some && usize_of(a[3]) is Some ==>
            makes(
                a,
                env,
                CommandView::CmsInitbydim {
                    key: a[1],
                    width: usize_of(a[2])->0,
                    depth: usize_of(a[3])->0,
                },
            ),
{
    reveal(verdict);
    lemma_called(a);
    assert(named_command_spec(
        upper_word(a[0]),
        unnamed(a),
        env,
    ) == cms_initbydim_spec(unnamed(a))) by {
        lemma_reach_sketches(upper_word(a[0]), unnamed(a), env);
        lemma_sketches_codes();
    }
}

/// What `CMS.INITBYPROB` stands for.
pub proof fn law_cms_initbyprob(a: Seq<Seq<u8>>, env: &ParseEnv)
    requires
        called(a, "CMS.INITBYPROB"@),
    ensures
        a.len() != 4 ==> refuses(a, env, "wrong number of arguments for 'cms.initbyprob' command"@),
        a.len() == 4 && double_of(env, a[2]) is None ==> refuses(a, env, "not a valid float"@),
        a.len() == 4 && double_of(env, a[2]) is Some && double_of(env, a[3]) is None ==>
            refuses(a, env, "not a valid float"@),
        a.len() == 4 && double_of(env, a[2]) is Some && double_of(env, a[3]) is Some ==>
            makes(
                a,
                env,
                CommandView::CmsInitbyprob {
                    key: a[1],
                    error: double_of(env, a[2])->0,
                    probability: double_of(env, a[3])->0,
                },
            ),
{
    reveal(verdict);
    lemma_called(a);
    assert(named_command_spec(
        upper_word(a[0]),
        unnamed(a),
        env,
    ) == cms_initbyprob_spec(unnamed(a), env)) by {
        lemma_reach_sketches(upper_word(a[0]), unnamed(a), env);
        lemma_sketches_codes();
    }
}

/// What `CMS.INCRBY` stands for, up to its options.
pub proof fn law_cms_incrby(a: Seq<Seq<u8>>, env: &ParseEnv)
    requires
        called(a, "CMS.INCRBY"@),
    ensures
        (a.len() < 4 || (a.len() - 2) % 2 != 0) ==>
            refuses(a, env, "wrong number of arguments for 'cms.incrby' command"@),
{
    reveal(verdict);
    lemma_called(a);
    assert(named_command_spec(
        upper_word(a[0]),
        unnamed(a),
        env,
    ) == cms_incrby_spec(unnamed(a))) by {
        lemma_reach_sketches(upper_word(a[0]), unnamed(a), env);
        lemma_sketches_codes();
    }
}

/// What `TOPK.RESERVE` stands for.
pub proof fn law_topk_reserve(a: Seq<Seq<u8>>, env: &ParseEnv)
    requires
        called(a, "TOPK.RESERVE"@),
    ensures
        a.len() != 3 ==> refuses(a, env, "wrong number of arguments for 'topk.reserve' command"@),
        a.len() == 3 && usize_of(a[2]) is None ==> refuses(a, env, "not an integer"@),
        a.len() == 3 && usize_of(a[2]) is Some ==>
            makes(a, env, CommandView::TopkReserve { key: a[1], topk: usize_of(a[2])->0 }),
{
    reveal(verdict);
    lemma_called(a);
    assert(named_command_spec(
        upper_word(a[0]),
        unnamed(a),
        env,
    ) == topk_reserve_spec(unnamed(a))) by {
        lemma_reach_sketches(upper_word(a[0]), unnamed(a), env);
        lemma_sketches_codes();
    }
}

} // verus!
