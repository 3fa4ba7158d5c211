//! JSON documents.
use bytes::Bytes;
use vstd::prelude::*;

use crate::command::{Command, CommandView, built, built_opt};
use crate::lists::{contents, keys_between, lossy_texts, no_texts, push_text, texts, texts_from};
use crate::numbers::{isize_of, read_isize};
use crate::operands::Double;
use crate::readings::{ParseEnv, double_of};
use crate::text::{lossy, lossy_text, same_text, upper, upper_word};

verus! {

/// The list of one text.
fn one_text(word: &str) -> (r: Vec<String>)
    ensures
        texts(r@) == seq![word@],
{
    let mut v: Vec<String> = no_texts();
    push_text(&mut v, word.to_owned());
    assert(texts(v@) =~= seq![word@]);
    v
}

/// What `JSON.SET` makes of its arguments from `i` on, given what came before them.
pub open spec fn json_set_options(a: Seq<Seq<u8>>, nx: bool, xx: bool, i: int) -> (bool, bool)
    decreases a.len() - i,
{
    if i >= a.len() {
        (nx, xx)
    } else {
        let opt = upper_word(a[i]);
        let (nx, xx) = if opt == "NX"@ {
            let nx = true;
            (nx, xx)
        } else if opt == "XX"@ {
            let xx = true;
            (nx, xx)
        } else {
            (nx, xx)
        };
        let i: int = i + 1;
        json_set_options(a, nx, xx, i)
    }
}

/// What `JSON.SET` builds from its arguments.
pub open spec fn json_set_spec(a: Seq<Seq<u8>>) -> Result<CommandView, Seq<char>> {
    if a.len() < 4 {
        Err("wrong number of arguments for 'json.set' command"@)
    } else {
        let nx = false;
        let xx = false;
        let i: int = 4;
        let (nx, xx) = json_set_options(a, nx, xx, i);
        Ok(CommandView::JsonSet {
            key: a[1],
            path: lossy_text(a[2]),
            json_val: lossy_text(a[3]),
            nx,
            xx,
        })
    }
}

#[verifier::loop_isolation(false)]
pub(crate) fn build_json_set(args: &Vec<Bytes>) -> (r: Result<Command, String>)
    requires
        args.len() > 0,
    ensures
        built(r) == json_set_spec(contents(args@)),
{
    if args.len() < 4 {
        return Err("wrong number of arguments for 'json.set' command".to_owned());
    }
    let mut nx: bool = false;
    let mut xx: bool = false;
    let mut i: usize = 4;
    let ghost goal_json_set_options = json_set_options(contents(args@), nx, xx, i as int);
    while i < args.len()
        invariant
            i <= args.len(),
            json_set_options(contents(args@), nx, xx, i as int) == goal_json_set_options,
        decreases args.len() - i,
    {
        let opt: String = upper(&args[i]);
        if same_text(&opt, "NX") {
            nx = true;
        } else if same_text(&opt, "XX") {
            xx = true;
        }
        i = i + 1;
    }
    Ok(Command::JsonSet {
        key: args[1].clone(),
        path: lossy(&args[2]),
        json_val: lossy(&args[3]),
        nx,
        xx,
    })
}

/// What `JSON.GET` builds from its arguments.
pub open spec fn json_get_spec(a: Seq<Seq<u8>>) -> Result<CommandView, Seq<char>> {
    if a.len() < 2 {
        Err("wrong number of arguments for 'json.get' command"@)
    } else if a.len() > 2 {
        Ok(CommandView::JsonGet { key: a[1], paths: lossy_texts(a.skip(2)) })
    } else {
        Ok(CommandView::JsonGet { key: a[1], paths: seq!["$"@] })
    }
}

pub(crate) fn build_json_get(args: &Vec<Bytes>) -> (r: Result<Command, String>)
    requires
        args.len() > 0,
    ensures
        built(r) == json_get_spec(contents(args@)),
{
    if args.len() < 2 {
        return Err("wrong number of arguments for 'json.get' command".to_owned());
    }
    if args.len() > 2 {
        Ok(Command::JsonGet { key: args[1].clone(), paths: texts_from(args, 2) })
    } else {
        Ok(Command::JsonGet { key: args[1].clone(), paths: one_text("$") })
    }
}

/// What `JSON.DEL` / `JSON.FORGET` builds from its arguments.
pub open spec fn json_del_spec(a: Seq<Seq<u8>>) -> Result<CommandView, Seq<char>> {
    if a.len() < 2 {
        Err("wrong number of arguments for 'json.del' command"@)
    } else if a.len() > 2 {
        Ok(CommandView::JsonDel { key: a[1], path: Some(lossy_text(a[2])) })
    } else {
        Ok(CommandView::JsonDel { key: a[1], path: None })
    }
}

pub(crate) fn build_json_del(args: &Vec<Bytes>) -> (r: Result<Command, String>)
    requires
        args.len() > 0,
    ensures
        built(r) == json_del_spec(contents(args@)),
{
    if args.len() < 2 {
        return Err("wrong number of arguments for 'json.del' command".to_owned());
    }
    if args.len() > 2 {
        Ok(Command::JsonDel { key: args[1].clone(), path: Some(lossy(&args[2])) })
    } else {
        Ok(Command::JsonDel { key: args[1].clone(), path: None })
    }
}

/// What `JSON.TYPE` builds from its arguments.
pub open spec fn json_type_spec(a: Seq<Seq<u8>>) -> Result<CommandView, Seq<char>> {
    if a.len() < 2 {
        Err("wrong number of arguments for 'json.type' command"@)
    } else if a.len() > 2 {
        Ok(CommandView::JsonType { key: a[1], path: Some(lossy_text(a[2])) })
    } else {
        Ok(CommandView::JsonType { key: a[1], path: None })
    }
}

pub(crate) fn build_json_type(args: &Vec<Bytes>) -> (r: Result<Command, String>)
    requires
        args.len() > 0,
    ensures
        built(r) == json_type_spec(contents(args@)),
{
    if args.len() < 2 {
        return Err("wrong number of arguments for 'json.type' command".to_owned());
    }
    if args.len() > 2 {
        Ok(Command::JsonType { key: args[1].clone(), path: Some(lossy(&args[2])) })
    } else {
        Ok(Command::JsonType { key: args[1].clone(), path: None })
    }
}

/// What `JSON.STRLEN` builds from its arguments.
pub open spec fn json_strlen_spec(a: Seq<Seq<u8>>) -> Result<CommandView, Seq<char>> {
    if a.len() < 2 {
        Err("wrong number of arguments for 'json.strlen' command"@)
    } else if a.len() > 2 {
        Ok(CommandView::JsonStrLen { key: a[1], path: Some(lossy_text(a[2])) })
    } else {
        Ok(CommandView::JsonStrLen { key: a[1], path: None })
    }
}

pub(crate) fn build_json_strlen(args: &Vec<Bytes>) -> (r: Result<Command, String>)
    requires
        args.len() > 0,
    ensures
        built(r) == json_strlen_spec(contents(args@)),
{
    if args.len() < 2 {
        return Err("wrong number of arguments for 'json.strlen' command".to_owned());
    }
    if args.len() > 2 {
        Ok(Command::JsonStrLen { key: args[1].clone(), path: Some(lossy(&args[2])) })
    } else {
        Ok(Command::JsonStrLen { key: args[1].clone(), path: None })
    }
}

/// What `JSON.ARRLEN` builds from its arguments.
pub open spec fn json_arrlen_spec(a: Seq<Seq<u8>>) -> Result<CommandView, Seq<char>> {
    if a.len() < 2 {
        Err("wrong number of arguments for 'json.arrlen' command"@)
    } else if a.len() > 2 {
        Ok(CommandView::JsonArrLen { key: a[1], path: Some(lossy_text(a[2])) })
    } else {
        Ok(CommandView::JsonArrLen { key: a[1], path: None })
    }
}

pub(crate) fn build_json_arrlen(args: &Vec<Bytes>) -> (r: Result<Command, String>)
    requires
        args.len() > 0,
    ensures
        built(r) == json_arrlen_spec(contents(args@)),
{
    if args.len() < 2 {
        return Err("wrong number of arguments for 'json.arrlen' command".to_owned());
    }
    if args.len() > 2 {
        Ok(Command::JsonArrLen { key: args[1].clone(), path: Some(lossy(&args[2])) })
    } else {
        Ok(Command::JsonArrLen { key: args[1].clone(), path: None })
    }
}

/// What `JSON.OBJKEYS` builds from its arguments.
pub open spec fn json_objkeys_spec(a: Seq<Seq<u8>>) -> Result<CommandView, Seq<char>> {
    if a.len() < 2 {
        Err("wrong number of arguments for 'json.objkeys' command"@)
    } else if a.len() > 2 {
        Ok(CommandView::JsonObjKeys { key: a[1], path: Some(lossy_text(a[2])) })
    } else {
        Ok(CommandView::JsonObjKeys { key: a[1], path: None })
    }
}

pub(crate) fn build_json_objkeys(args: &Vec<Bytes>) -> (r: Result<Command, String>)
    requires
        args.len() > 0,
    ensures
        built(r) == json_objkeys_spec(contents(args@)),
{
    if args.len() < 2 {
        return Err("wrong number of arguments for 'json.objkeys' command".to_owned());
    }
    if args.len() > 2 {
        Ok(Command::JsonObjKeys { key: args[1].clone(), path: Some(lossy(&args[2])) })
    } else {
        Ok(Command::JsonObjKeys { key: args[1].clone(), path: None })
    }
}

/// What `JSON.OBJLEN` builds from its arguments.
pub open spec fn json_objlen_spec(a: Seq<Seq<u8>>) -> Result<CommandView, Seq<char>> {
    if a.len() < 2 {
        Err("wrong number of arguments for 'json.objlen' command"@)
    } else if a.len() > 2 {
        Ok(CommandView::JsonObjLen { key: a[1], path: Some(lossy_text(a[2])) })
    } else {
        Ok(CommandView::JsonObjLen { key: a[1], path: None })
    }
}

pub(crate) fn build_json_objlen(args: &Vec<Bytes>) -> (r: Result<Command, String>)
    requires
        args.len() > 0,
    ensures
        built(r) == json_objlen_spec(contents(args@)),
{
    if args.len() < 2 {
        return Err("wrong number of arguments for 'json.objlen' command".to_owned());
    }
    if args.len() > 2 {
        Ok(Command::JsonObjLen { key: args[1].clone(), path: Some(lossy(&args[2])) })
    } else {
        Ok(Command::JsonObjLen { key: args[1].clone(), path: None })
    }
}

/// What `JSON.CLEAR` builds from its arguments.
pub open spec fn json_clear_spec(a: Seq<Seq<u8>>) -> Result<CommandView, Seq<char>> {
    if a.len() < 2 {
        Err("wrong number of arguments for 'json.clear' command"@)
    } else if a.len() > 2 {
        Ok(CommandView::JsonClear { key: a[1], path: Some(lossy_text(a[2])) })
    } else {
        Ok(CommandView::JsonClear { key: a[1], path: None })
    }
}

pub(crate) fn build_json_clear(args: &Vec<Bytes>) -> (r: Result<Command, String>)
    requires
        args.len() > 0,
    ensures
        built(r) == json_clear_spec(contents(args@)),
{
    if args.len() < 2 {
        return Err("wrong number of arguments for 'json.clear' command".to_owned());
    }
    if args.len() > 2 {
        Ok(Command::JsonClear { key: args[1].clone(), path: Some(lossy(&args[2])) })
    } else {
        Ok(Command::JsonClear { key: args[1].clone(), path: None })
    }
}

/// What `JSON.NUMINCRBY` builds from its arguments.
pub open spec fn json_numincrby_spec(
    a: Seq<Seq<u8>>,
    env: &ParseEnv,
) -> Result<CommandView, Seq<char>> {
    if a.len() < 4 {
        Err("wrong number of arguments for 'json.numincrby' command"@)
    } else {
        match double_of(env, a[3]) {
            None => Err("not a number"@),
            Some(delta) => {
                Ok(CommandView::JsonNumIncrBy { key: a[1], path: lossy_text(a[2]), delta })
            },
        }
    }
}

pub(crate) fn build_json_numincrby(
    args: &Vec<Bytes>,
    env: &ParseEnv,
) -> (r: Result<Command, String>)
    requires
        args.len() > 0,
    ensures
        built(r) == json_numincrby_spec(contents(args@), env),
{
    if args.len() < 4 {
        return Err("wrong number of arguments for 'json.numincrby' command".to_owned());
    }
    let delta: Double = match env.double(args[3].as_ref()) {
        Some(v) => v,
        None => return Err("not a number".to_owned()),
    };
    Ok(Command::JsonNumIncrBy { key: args[1].clone(), path: lossy(&args[2]), delta })
}

/// What `JSON.NUMMULTBY` builds from its arguments.
pub open spec fn json_nummultby_spec(
    a: Seq<Seq<u8>>,
    env: &ParseEnv,
) -> Result<CommandView, Seq<char>> {
    if a.len() < 4 {
        Err("wrong number of arguments for 'json.nummultby' command"@)
    } else {
        match double_of(env, a[3]) {
            None => Err("not a number"@),
            Some(factor) => {
                Ok(CommandView::JsonNumMultBy { key: a[1], path: lossy_text(a[2]), factor })
            },
        }
    }
}

pub(crate) fn build_json_nummultby(
    args: &Vec<Bytes>,
    env: &ParseEnv,
) -> (r: Result<Command, String>)
    requires
        args.len() > 0,
    ensures
        built(r) == json_nummultby_spec(contents(args@), env),
{
    if args.len() < 4 {
        return Err("wrong number of arguments for 'json.nummultby' command".to_owned());
    }
    let factor: Double = match env.double(args[3].as_ref()) {
        Some(v) => v,
        None => return Err("not a number".to_owned()),
    };
    Ok(Command::JsonNumMultBy { key: args[1].clone(), path: lossy(&args[2]), factor })
}

/// What `JSON.STRAPPEND` builds from its arguments.
pub open spec fn json_strappend_spec(a: Seq<Seq<u8>>) -> Result<CommandView, Seq<char>> {
    if a.len() < 3 {
        Err("wrong number of arguments for 'json.strappend' command"@)
    } else if a.len() == 3 {
        Ok(CommandView::JsonStrAppend { key: a[1], path: None, value: lossy_text(a[2]) })
    } else {
        Ok(CommandView::JsonStrAppend {
            key: a[1],
            path: Some(lossy_text(a[2])),
            value: lossy_text(a[3]),
        })
    }
}

pub(crate) fn build_json_strappend(args: &Vec<Bytes>) -> (r: Result<Command, String>)
    requires
        args.len() > 0,
    ensures
        built(r) == json_strappend_spec(contents(args@)),
{
    if args.len() < 3 {
        return Err("wrong number of arguments for 'json.strappend' command".to_owned());
    }
    if args.len() == 3 {
        Ok(Command::JsonStrAppend { key: args[1].clone(), path: None, value: lossy(&args[2]) })
    } else {
        Ok(Command::JsonStrAppend {
            key: args[1].clone(),
            path: Some(lossy(&args[2])),
            value: lossy(&args[3]),
        })
    }
}

/// What `JSON.ARRAPPEND` builds from its arguments.
pub open spec fn json_arrappend_spec(a: Seq<Seq<u8>>) -> Result<CommandView, Seq<char>> {
    if a.len() < 4 {
        Err("wrong number of arguments for 'json.arrappend' command"@)
    } else {
        Ok(CommandView::JsonArrAppend {
            key: a[1],
            path: lossy_text(a[2]),
            values: lossy_texts(a.skip(3)),
        })
    }
}

pub(crate) fn build_json_arrappend(args: &Vec<Bytes>) -> (r: Result<Command, String>)
    requires
        args.len() > 0,
    ensures
        built(r) == json_arrappend_spec(contents(args@)),
{
    if args.len() < 4 {
        return Err("wrong number of arguments for 'json.arrappend' command".to_owned());
    }
    Ok(Command::JsonArrAppend {
        key: args[1].clone(),
        path: lossy(&args[2]),
        values: texts_from(args, 3),
    })
}

/// What `JSON.ARRPOP` builds from its arguments.
pub open spec fn json_arrpop_spec(a: Seq<Seq<u8>>) -> Result<CommandView, Seq<char>> {
    if a.len() < 2 {
        Err("wrong number of arguments for 'json.arrpop' command"@)
    } else if a.len() > 3 {
        Ok(CommandView::JsonArrPop {
            key: a[1],
            path: Some(lossy_text(a[2])),
            index: isize_of(a[3]),
        })
    } else if a.len() > 2 {
        Ok(CommandView::JsonArrPop { key: a[1], path: Some(lossy_text(a[2])), index: None })
    } else {
        Ok(CommandView::JsonArrPop { key: a[1], path: None, index: None })
    }
}

pub(crate) fn build_json_arrpop(args: &Vec<Bytes>) -> (r: Result<Command, String>)
    requires
        args.len() > 0,
    ensures
        built(r) == json_arrpop_spec(contents(args@)),
{
    if args.len() < 2 {
        return Err("wrong number of arguments for 'json.arrpop' command".to_owned());
    }
    if args.len() > 3 {
        Ok(Command::JsonArrPop {
            key: args[1].clone(),
            path: Some(lossy(&args[2])),
            index: read_isize(args[3].as_ref()),
        })
    } else if args.len() > 2 {
        Ok(Command::JsonArrPop { key: args[1].clone(), path: Some(lossy(&args[2])), index: None })
    } else {
        Ok(Command::JsonArrPop { key: args[1].clone(), path: None, index: None })
    }
}

/// What `JSON.TOGGLE` builds from its arguments.
pub open spec fn json_toggle_spec(a: Seq<Seq<u8>>) -> Result<CommandView, Seq<char>> {
    if a.len() < 3 {
        Err("wrong number of arguments for 'json.toggle' command"@)
    } else {
        Ok(CommandView::JsonToggle { key: a[1], path: lossy_text(a[2]) })
    }
}

pub(crate) fn build_json_toggle(args: &Vec<Bytes>) -> (r: Result<Command, String>)
    requires
        args.len() > 0,
    ensures
        built(r) == json_toggle_spec(contents(args@)),
{
    if args.len() < 3 {
        return Err("wrong number of arguments for 'json.toggle' command".to_owned());
    }
    Ok(Command::JsonToggle { key: args[1].clone(), path: lossy(&args[2]) })
}

/// What `JSON.MGET` builds from its arguments.
pub open spec fn json_mget_spec(a: Seq<Seq<u8>>) -> Result<CommandView, Seq<char>> {
    if a.len() < 3 {
        Err("wrong number of arguments for 'json.mget' command"@)
    } else {
        Ok(CommandView::JsonMget {
            keys: a.subrange(1, a.len() - 1),
            path: lossy_text(a[a.len() - 1]),
        })
    }
}

pub(crate) fn build_json_mget(args: &Vec<Bytes>) -> (r: Result<Command, String>)
    requires
        args.len() > 0,
    ensures
        built(r) == json_mget_spec(contents(args@)),
{
    if args.len() < 3 {
        return Err("wrong number of arguments for 'json.mget' command".to_owned());
    }
    Ok(Command::JsonMget {
        keys: keys_between(args, 1, args.len() - 1),
        path: lossy(&args[args.len() - 1]),
    })
}

/// The commands on JSON documents: the command that `name` stands for among them, if it is one.
pub open spec fn json_command_spec(
    name: Seq<char>,
    a: Seq<Seq<u8>>,
    env: &ParseEnv,
) -> Option<Result<CommandView, Seq<char>>> {
    if name == "JSON.SET"@ {
        Some(json_set_spec(a))
    } else if name == "JSON.GET"@ {
        Some(json_get_spec(a))
    } else if name == "JSON.DEL"@ || name == "JSON.FORGET"@ {
        Some(json_del_spec(a))
    } else if name == "JSON.TYPE"@ {
        Some(json_type_spec(a))
    } else if name == "JSON.STRLEN"@ {
        Some(json_strlen_spec(a))
    } else if name == "JSON.ARRLEN"@ {
        Some(json_arrlen_spec(a))
    } else if name == "JSON.OBJKEYS"@ {
        Some(json_objkeys_spec(a))
    } else if name == "JSON.OBJLEN"@ {
        Some(json_objlen_spec(a))
    } else if name == "JSON.CLEAR"@ {
        Some(json_clear_spec(a))
    } else if name == "JSON.NUMINCRBY"@ {
        Some(json_numincrby_spec(a, env))
    } else if name == "JSON.NUMMULTBY"@ {
        Some(json_nummultby_spec(a, env))
    } else if name == "JSON.STRAPPEND"@ {
        Some(json_strappend_spec(a))
    } else if name == "JSON.ARRAPPEND"@ {
        Some(json_arrappend_spec(a))
    } else if name == "JSON.ARRPOP"@ {
        Some(json_arrpop_spec(a))
    } else if name == "JSON.TOGGLE"@ {
        Some(json_toggle_spec(a))
    } else if name == "JSON.MGET"@ {
        Some(json_mget_spec(a))
    } else {
        None
    }
}

pub(crate) fn json_command(
    name: &str,
    args: &Vec<Bytes>,
    env: &ParseEnv,
) -> (r: Option<Result<Command, String>>)
    requires
        args.len() > 0,
    ensures
        built_opt(r) == json_command_spec(name@, contents(args@), env),
{
    if same_text(name, "JSON.SET") {
        Some(build_json_set(args))
    } else if same_text(name, "JSON.GET") {
        Some(build_json_get(args))
    } else if same_text(name, "JSON.DEL") || same_text(name, "JSON.FORGET") {
        Some(build_json_del(args))
    } else if same_text(name, "JSON.TYPE") {
        Some(build_json_type(args))
    } else if same_text(name, "JSON.STRLEN") {
        Some(build_json_strlen(args))
    } else if same_text(name, "JSON.ARRLEN") {
        Some(build_json_arrlen(args))
    } else if same_text(name, "JSON.OBJKEYS") {
        Some(build_json_objkeys(args))
    } else if same_text(name, "JSON.OBJLEN") {
        Some(build_json_objlen(args))
    } else if same_text(name, "JSON.CLEAR") {
        Some(build_json_clear(args))
    } else if same_text(name, "JSON.NUMINCRBY") {
        Some(build_json_numincrby(args, env))
    } else if same_text(name, "JSON.NUMMULTBY") {
        Some(build_json_nummultby(args, env))
    } else if same_text(name, "JSON.STRAPPEND") {
        Some(build_json_strappend(args))
    } else if same_text(name, "JSON.ARRAPPEND") {
        Some(build_json_arrappend(args))
    } else if same_text(name, "JSON.ARRPOP") {
        Some(build_json_arrpop(args))
    } else if same_text(name, "JSON.TOGGLE") {
        Some(build_json_toggle(args))
    } else if same_text(name, "JSON.MGET") {
        Some(build_json_mget(args))
    } else {
        None
    }
}

} // verus!
