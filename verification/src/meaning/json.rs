//! What the commands on documents stand for.
use vstd::prelude::*;

use crate::build::named_command_spec;
use crate::build::json::{
    json_arrappend_spec, json_arrlen_spec, json_arrpop_spec, json_clear_spec, json_del_spec,
    json_get_spec, json_mget_spec, json_numincrby_spec, json_nummultby_spec, json_objkeys_spec,
    json_objlen_spec, json_set_spec, json_strappend_spec, json_strlen_spec, json_toggle_spec,
    json_type_spec,
};
use crate::build::naming::{lemma_json_codes, lemma_reach_json};
use crate::command::CommandView;
use crate::lists::lossy_texts;
use crate::numbers::isize_of;
use crate::readings::{ParseEnv, double_of};
use crate::resp::unnamed;
use crate::text::{lossy_text, upper_word};
use super::{called, lemma_called, makes, refuses, verdict};

verus! {

/// What `JSON.SET` stands for, up to its options.
pub proof fn law_json_set(a: Seq<Seq<u8>>, env: &ParseEnv)
    requires
        called(a, "JSON.SET"@),
    ensures
        a.len() < 4 ==> refuses(a, env, "wrong number of arguments for 'json.set' command"@),
{
    reveal(verdict);
    lemma_called(a);
    assert(named_command_spec(upper_word(a[0]), unnamed(a), env) == json_set_spec(unnamed(a))) by {
        lemma_reach_json(upper_word(a[0]), unnamed(a), env);
        lemma_json_codes();
    }
}

/// What `JSON.GET` stands for.
pub proof fn law_json_get(a: Seq<Seq<u8>>, env: &ParseEnv)
    requires
        called(a, "JSON.GET"@),
    ensures
        a.len() < 2 ==> refuses(a, env, "wrong number of arguments for 'json.get' command"@),
        a.len() >= 3 ==>
            makes(a, env, CommandView::JsonGet { key: a[1], paths: lossy_texts(a.skip(2)) }),
        a.len() >= 2 && a.len() <= 2 ==>
            makes(a, env, CommandView::JsonGet { key: a[1], paths: seq!["$"@] }),
{
    reveal(verdict);
    lemma_called(a);
    assert(named_command_spec(upper_word(a[0]), unnamed(a), env) == json_get_spec(unnamed(a))) by {
        lemma_reach_json(upper_word(a[0]), unnamed(a), env);
        lemma_json_codes();
    }
}

/// What `JSON.DEL` or `JSON.FORGET` stands for.
pub proof fn law_json_del(a: Seq<Seq<u8>>, env: &ParseEnv)
    requires
        called(a, "JSON.DEL"@) || called(a, "JSON.FORGET"@),
    ensures
        a.len() < 2 ==> refuses(a, env, "wrong number of arguments for 'json.del' command"@),
        a.len() >= 3 ==>
            makes(a, env, CommandView::JsonDel { key: a[1], path: Some(lossy_text(a[2])) }),
        a.len() >= 2 && a.len() <= 2 ==>
            makes(a, env, CommandView::JsonDel { key: a[1], path: None }),
{
    reveal(verdict);
    lemma_called(a);
    assert(named_command_spec(upper_word(a[0]), unnamed(a), env) == json_del_spec(unnamed(a))) by {
        lemma_reach_json(upper_word(a[0]), unnamed(a), env);
        lemma_json_codes();
    }
}

/// What `JSON.TYPE` stands for.
pub proof fn law_json_type(a: Seq<Seq<u8>>, env: &ParseEnv)
    requires
        called(a, "JSON.TYPE"@),
    ensures
        a.len() < 2 ==> refuses(a, env, "wrong number of arguments for 'json.type' command"@),
        a.len() >= 3 ==>
            makes(a, env, CommandView::JsonType { key: a[1], path: Some(lossy_text(a[2])) }),
        a.len() >= 2 && a.len() <= 2 ==>
            makes(a, env, CommandView::JsonType { key: a[1], path: None }),
{
    reveal(verdict);
    lemma_called(a);
    assert(named_command_spec(upper_word(a[0]), unnamed(a), env) == json_type_spec(unnamed(a))) by {
        lemma_reach_json(upper_word(a[0]), unnamed(a), env);
        lemma_json_codes();
    }
}

/// What `JSON.STRLEN` stands for.
pub proof fn law_json_strlen(a: Seq<Seq<u8>>, env: &ParseEnv)
    requires
        called(a, "JSON.STRLEN"@),
    ensures
        a.len() < 2 ==> refuses(a, env, "wrong number of arguments for 'json.strlen' command"@),
        a.len() >= 3 ==>
            makes(a, env, CommandView::JsonStrLen { key: a[1], path: Some(lossy_text(a[2])) }),
        a.len() >= 2 && a.len() <= 2 ==>
            makes(a, env, CommandView::JsonStrLen { key: a[1], path: None }),
{
    reveal(verdict);
    lemma_called(a);
    assert(named_command_spec(
        upper_word(a[0]),
        unnamed(a),
        env,
    ) == json_strlen_spec(unnamed(a))) by {
        lemma_reach_json(upper_word(a[0]), unnamed(a), env);
        lemma_json_codes();
    }
}

/// What `JSON.ARRLEN` stands for.
pub proof fn law_json_arrlen(a: Seq<Seq<u8>>, env: &ParseEnv)
    requires
        called(a, "JSON.ARRLEN"@),
    ensures
        a.len() < 2 ==> refuses(a, env, "wrong number of arguments for 'json.arrlen' command"@),
        a.len() >= 3 ==>
            makes(a, env, CommandView::JsonArrLen { key: a[1], path: Some(lossy_text(a[2])) }),
        a.len() >= 2 && a.len() <= 2 ==>
            makes(a, env, CommandView::JsonArrLen { key: a[1], path: None }),
{
    reveal(verdict);
    lemma_called(a);
    assert(named_command_spec(
        upper_word(a[0]),
        unnamed(a),
        env,
    ) == json_arrlen_spec(unnamed(a))) by {
        lemma_reach_json(upper_word(a[0]), unnamed(a), env);
        lemma_json_codes();
    }
}

/// What `JSON.OBJKEYS` stands for.
pub proof fn law_json_objkeys(a: Seq<Seq<u8>>, env: &ParseEnv)
    requires
        called(a, "JSON.OBJKEYS"@),
    ensures
        a.len() < 2 ==> refuses(a, env, "wrong number of arguments for 'json.objkeys' command"@),
        a.len() >= 3 ==>
            makes(a, env, CommandView::JsonObjKeys { key: a[1], path: Some(lossy_text(a[2])) }),
        a.len() >= 2 && a.len() <= 2 ==>
            makes(a, env, CommandView::JsonObjKeys { key: a[1], path: None }),
{
    reveal(verdict);
    lemma_called(a);
    assert(named_command_spec(
        upper_word(a[0]),
        unnamed(a),
        env,
    ) == json_objkeys_spec(unnamed(a))) by {
        lemma_reach_json(upper_word(a[0]), unnamed(a), env);
        lemma_json_codes();
    }
}

/// What `JSON.OBJLEN` stands for.
pub proof fn law_json_objlen(a: Seq<Seq<u8>>, env: &ParseEnv)
    requires
        called(a, "JSON.OBJLEN"@),
    ensures
        a.len() < 2 ==> refuses(a, env, "wrong number of arguments for 'json.objlen' command"@),
        a.len() >= 3 ==>
            makes(a, env, CommandView::JsonObjLen { key: a[1], path: Some(lossy_text(a[2])) }),
        a.len() >= 2 && a.len() <= 2 ==>
            makes(a, env, CommandView::JsonObjLen { key: a[1], path: None }),
{
    reveal(verdict);
    lemma_called(a);
    assert(named_command_spec(
        upper_word(a[0]),
        unnamed(a),
        env,
    ) == json_objlen_spec(unnamed(a))) by {
        lemma_reach_json(upper_word(a[0]), unnamed(a), env);
        lemma_json_codes();
    }
}

/// What `JSON.CLEAR` stands for.
pub proof fn law_json_clear(a: Seq<Seq<u8>>, env: &ParseEnv)
    requires
        called(a, "JSON.CLEAR"@),
    ensures
        a.len() < 2 ==> refuses(a, env, "wrong number of arguments for 'json.clear' command"@),
        a.len() >= 3 ==>
            makes(a, env, CommandView::JsonClear { key: a[1], path: Some(lossy_text(a[2])) }),
        a.len() >= 2 && a.len() <= 2 ==>
            makes(a, env, CommandView::JsonClear { key: a[1], path: None }),
{
    reveal(verdict);
    lemma_called(a);
    assert(named_command_spec(
        upper_word(a[0]),
        unnamed(a),
        env,
    ) == json_clear_spec(unnamed(a))) by {
        lemma_reach_json(upper_word(a[0]), unnamed(a), env);
        lemma_json_codes();
    }
}

/// What `JSON.NUMINCRBY` stands for.
pub proof fn law_json_numincrby(a: Seq<Seq<u8>>, env: &ParseEnv)
    requires
        called(a, "JSON.NUMINCRBY"@),
    ensures
        a.len() < 4 ==> refuses(a, env, "wrong number of arguments for 'json.numincrby' command"@),
        a.len() >= 4 && double_of(env, a[3]) is None ==> refuses(a, env, "not a number"@),
        a.len() >= 4 && double_of(env, a[3]) is Some ==>
            makes(
                a,
                env,
                CommandView::JsonNumIncrBy {
                    key: a[1],
                    path: lossy_text(a[2]),
                    delta: double_of(env, a[3])->0,
                },
            ),
{
    reveal(verdict);
    lemma_called(a);
    assert(named_command_spec(
        upper_word(a[0]),
        unnamed(a),
        env,
    ) == json_numincrby_spec(unnamed(a), env)) by {
        lemma_reach_json(upper_word(a[0]), unnamed(a), env);
        lemma_json_codes();
    }
}

/// What `JSON.NUMMULTBY` stands for.
pub proof fn law_json_nummultby(a: Seq<Seq<u8>>, env: &ParseEnv)
    requires
        called(a, "JSON.NUMMULTBY"@),
    ensures
        a.len() < 4 ==> refuses(a, env, "wrong number of arguments for 'json.nummultby' command"@),
        a.len() >= 4 && double_of(env, a[3]) is None ==> refuses(a, env, "not a number"@),
        a.len() >= 4 && double_of(env, a[3]) is Some ==>
            makes(
                a,
                env,
                CommandView::JsonNumMultBy {
                    key: a[1],
                    path: lossy_text(a[2]),
                    factor: double_of(env, a[3])->0,
                },
            ),
{
    reveal(verdict);
    lemma_called(a);
    assert(named_command_spec(
        upper_word(a[0]),
        unnamed(a),
        env,
    ) == json_nummultby_spec(unnamed(a), env)) by {
        lemma_reach_json(upper_word(a[0]), unnamed(a), env);
        lemma_json_codes();
    }
}

/// What `JSON.STRAPPEND` stands for.
pub proof fn law_json_strappend(a: Seq<Seq<u8>>, env: &ParseEnv)
    requires
        called(a, "JSON.STRAPPEND"@),
    ensures
        a.len() < 3 ==> refuses(a, env, "wrong number of arguments for 'json.strappend' command"@),
        a.len() == 3 ==>
            makes(
                a,
                env,
                CommandView::JsonStrAppend { key: a[1], path: None, value: lossy_text(a[2]) },
            ),
        a.len() >= 3 && a.len() != 3 ==>
            makes(
                a,
                env,
                CommandView::JsonStrAppend {
                    key: a[1],
                    path: Some(lossy_text(a[2])),
                    value: lossy_text(a[3]),
                },
            ),
{
    reveal(verdict);
    lemma_called(a);
    assert(named_command_spec(
        upper_word(a[0]),
        unnamed(a),
        env,
    ) == json_strappend_spec(unnamed(a))) by {
        lemma_reach_json(upper_word(a[0]), unnamed(a), env);
        lemma_json_codes();
    }
}

/// What `JSON.ARRAPPEND` stands for.
pub proof fn law_json_arrappend(a: Seq<Seq<u8>>, env: &ParseEnv)
    requires
        called(a, "JSON.ARRAPPEND"@),
    ensures
        a.len() < 4 ==> refuses(a, env, "wrong number of arguments for 'json.arrappend' command"@),
        a.len() >= 4 ==>
            makes(
                a,
                env,
                CommandView::JsonArrAppend {
                    key: a[1],
                    path: lossy_text(a[2]),
                    values: lossy_texts(a.skip(3)),
                },
            ),
{
    reveal(verdict);
    lemma_called(a);
    assert(named_command_spec(
        upper_word(a[0]),
        unnamed(a),
        env,
    ) == json_arrappend_spec(unnamed(a))) by {
        lemma_reach_json(upper_word(a[0]), unnamed(a), env);
        lemma_json_codes();
    }
}

/// What `JSON.ARRPOP` stands for.
pub proof fn law_json_arrpop(a: Seq<Seq<u8>>, env: &ParseEnv)
    requires
        called(a, "JSON.ARRPOP"@),
    ensures
        a.len() < 2 ==> refuses(a, env, "wrong number of arguments for 'json.arrpop' command"@),
        a.len() >= 4 ==>
            makes(
                a,
                env,
                CommandView::JsonArrPop {
                    key: a[1],
                    path: Some(lossy_text(a[2])),
                    index: isize_of(a[3]),
                },
            ),
        a.len() >= 3 && a.len() <= 3 ==>
            makes(
                a,
                env,
                CommandView::JsonArrPop { key: a[1], path: Some(lossy_text(a[2])), index: None },
            ),
        a.len() >= 2 && a.len() <= 3 && a.len() <= 2 ==>
            makes(a, env, CommandView::JsonArrPop { key: a[1], path: None, index: None }),
{
    reveal(verdict);
    lemma_called(a);
    assert(named_command_spec(
        upper_word(a[0]),
        unnamed(a),
        env,
    ) == json_arrpop_spec(unnamed(a))) by {
        lemma_reach_json(upper_word(a[0]), unnamed(a), env);
        lemma_json_codes();
    }
}

/// What `JSON.TOGGLE` stands for.
pub proof fn law_json_toggle(a: Seq<Seq<u8>>, env: &ParseEnv)
    requires
        called(a, "JSON.TOGGLE"@),
    ensures
        a.len() < 3 ==> refuses(a, env, "wrong number of arguments for 'json.toggle' command"@),
        a.len() >= 3 ==>
            makes(a, env, CommandView::JsonToggle { key: a[1], path: lossy_text(a[2]) }),
{
    reveal(verdict);
    lemma_called(a);
    assert(named_command_spec(
        upper_word(a[0]),
        unnamed(a),
        env,
    ) == json_toggle_spec(unnamed(a))) by {
        lemma_reach_json(upper_word(a[0]), unnamed(a), env);
        lemma_json_codes();
    }
}

/// What `JSON.MGET` stands for.
pub proof fn law_json_mget(a: Seq<Seq<u8>>, env: &ParseEnv)
    requires
        called(a, "JSON.MGET"@),
    ensures
        a.len() < 3 ==> refuses(a, env, "wrong number of arguments for 'json.mget' command"@),
        a.len() >= 3 ==>
            makes(
                a,
                env,
                CommandView::JsonMget {
                    keys: a.subrange(1, a.len() - 1),
                    path: lossy_text(a[a.len() - 1]),
                },
            ),
{
    reveal(verdict);
    lemma_called(a);
    assert(named_command_spec(upper_word(a[0]), unnamed(a), env) == json_mget_spec(unnamed(a))) by {
        lemma_reach_json(upper_word(a[0]), unnamed(a), env);
        lemma_json_codes();
    }
}

} // verus!
