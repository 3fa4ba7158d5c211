//! Probabilistic sketches.
use bytes::Bytes;
use vstd::prelude::*;

use crate::command::{Command, CommandView, built, built_opt};
use crate::lists::{contents, counted, keys_from, no_counted, push_counted};
use crate::numbers::{read_u64, read_usize, u64_of, usize_of};
use crate::operands::Double;
use crate::readings::{ParseEnv, double_of};
use crate::text::same_text;

verus! {

/// What `BF.RESERVE` builds from its arguments.
pub open spec fn bf_reserve_spec(
    a: Seq<Seq<u8>>,
    env: &ParseEnv,
) -> Result<CommandView, Seq<char>> {
    if a.len() != 4 {
        Err("wrong number of arguments for 'bf.reserve' command"@)
    } else {
        match double_of(env, a[2]) {
            None => Err("not a valid float"@),
            Some(error_rate) => {
                match usize_of(a[3]) {
                    None => Err("not an integer"@),
                    Some(capacity) => {
                        Ok(CommandView::BfReserve { key: a[1], error_rate, capacity })
                    },
                }
            },
        }
    }
}

pub(crate) fn build_bf_reserve(args: &Vec<Bytes>, env: &ParseEnv) -> (r: Result<Command, String>)
    requires
        args.len() > 0,
    ensures
        built(r) == bf_reserve_spec(contents(args@), env),
{
    if args.len() != 4 {
        return Err("wrong number of arguments for 'bf.reserve' command".to_owned());
    }
    let error_rate: Double = match env.double(args[2].as_ref()) {
        Some(v) => v,
        None => return Err("not a valid float".to_owned()),
    };
    let capacity: usize = match read_usize(args[3].as_ref()) {
        Some(v) => v,
        None => return Err("not an integer".to_owned()),
    };
    Ok(Command::BfReserve { key: args[1].clone(), error_rate, capacity })
}

/// What `BF.ADD` builds from its arguments.
pub open spec fn bf_add_spec(a: Seq<Seq<u8>>) -> Result<CommandView, Seq<char>> {
    if a.len() != 3 {
        Err("wrong number of arguments for 'bf.add' command"@)
    } else {
        Ok(CommandView::BfAdd { key: a[1], item: a[2] })
    }
}

pub(crate) fn build_bf_add(args: &Vec<Bytes>) -> (r: Result<Command, String>)
    requires
        args.len() > 0,
    ensures
        built(r) == bf_add_spec(contents(args@)),
{
    if args.len() != 3 {
        return Err("wrong number of arguments for 'bf.add' command".to_owned());
    }
    Ok(Command::BfAdd { key: args[1].clone(), item: args[2].clone() })
}

/// What `BF.EXISTS` builds from its arguments.
pub open spec fn bf_exists_spec(a: Seq<Seq<u8>>) -> Result<CommandView, Seq<char>> {
    if a.len() != 3 {
        Err("wrong number of arguments for 'bf.exists' command"@)
    } else {
        Ok(CommandView::BfExists { key: a[1], item: a[2] })
    }
}

pub(crate) fn build_bf_exists(args: &Vec<Bytes>) -> (r: Result<Command, String>)
    requires
        args.len() > 0,
    ensures
        built(r) == bf_exists_spec(contents(args@)),
{
    if args.len() != 3 {
        return Err("wrong number of arguments for 'bf.exists' command".to_owned());
    }
    Ok(Command::BfExists { key: args[1].clone(), item: args[2].clone() })
}

/// What `CF.ADD` builds from its arguments.
pub open spec fn cf_add_spec(a: Seq<Seq<u8>>) -> Result<CommandView, Seq<char>> {
    if a.len() != 3 {
        Err("wrong number of arguments for 'cf.add' command"@)
    } else {
        Ok(CommandView::CfAdd { key: a[1], item: a[2] })
    }
}

pub(crate) fn build_cf_add(args: &Vec<Bytes>) -> (r: Result<Command, String>)
    requires
        args.len() > 0,
    ensures
        built(r) == cf_add_spec(contents(args@)),
{
    if args.len() != 3 {
        return Err("wrong number of arguments for 'cf.add' command".to_owned());
    }
    Ok(Command::CfAdd { key: args[1].clone(), item: args[2].clone() })
}

/// What `CF.ADDNX` builds from its arguments.
pub open spec fn cf_addnx_spec(a: Seq<Seq<u8>>) -> Result<CommandView, Seq<char>> {
    if a.len() != 3 {
        Err("wrong number of arguments for 'cf.addnx' command"@)
    } else {
        Ok(CommandView::CfAddnx { key: a[1], item: a[2] })
    }
}

pub(crate) fn build_cf_addnx(args: &Vec<Bytes>) -> (r: Result<Command, String>)
    requires
        args.len() > 0,
    ensures
        built(r) == cf_addnx_spec(contents(args@)),
{
    if args.len() != 3 {
        return Err("wrong number of arguments for 'cf.addnx' command".to_owned());
    }
    Ok(Command::CfAddnx { key: args[1].clone(), item: args[2].clone() })
}

/// What `CF.EXISTS` builds from its arguments.
pub open spec fn cf_exists_spec(a: Seq<Seq<u8>>) -> Result<CommandView, Seq<char>> {
    if a.len() != 3 {
        Err("wrong number of arguments for 'cf.exists' command"@)
    } else {
        Ok(CommandView::CfExists { key: a[1], item: a[2] })
    }
}

pub(crate) fn build_cf_exists(args: &Vec<Bytes>) -> (r: Result<Command, String>)
    requires
        args.len() > 0,
    ensures
        built(r) == cf_exists_spec(contents(args@)),
{
    if args.len() != 3 {
        return Err("wrong number of arguments for 'cf.exists' command".to_owned());
    }
    Ok(Command::CfExists { key: args[1].clone(), item: args[2].clone() })
}

/// What `CF.DEL` builds from its arguments.
pub open spec fn cf_del_spec(a: Seq<Seq<u8>>) -> Result<CommandView, Seq<char>> {
    if a.len() != 3 {
        Err("wrong number of arguments for 'cf.del' command"@)
    } else {
        Ok(CommandView::CfDel { key: a[1], item: a[2] })
    }
}

pub(crate) fn build_cf_del(args: &Vec<Bytes>) -> (r: Result<Command, String>)
    requires
        args.len() > 0,
    ensures
        built(r) == cf_del_spec(contents(args@)),
{
    if args.len() != 3 {
        return Err("wrong number of arguments for 'cf.del' command".to_owned());
    }
    Ok(Command::CfDel { key: args[1].clone(), item: args[2].clone() })
}

/// What `BF.MADD` builds from its arguments.
pub open spec fn bf_madd_spec(a: Seq<Seq<u8>>) -> Result<CommandView, Seq<char>> {
    if a.len() < 3 {
        Err("wrong number of arguments for 'bf.madd' command"@)
    } else {
        Ok(CommandView::BfMadd { key: a[1], items: a.skip(2) })
    }
}

pub(crate) fn build_bf_madd(args: &Vec<Bytes>) -> (r: Result<Command, String>)
    requires
        args.len() > 0,
    ensures
        built(r) == bf_madd_spec(contents(args@)),
{
    if args.len() < 3 {
        return Err("wrong number of arguments for 'bf.madd' command".to_owned());
    }
    Ok(Command::BfMadd { key: args[1].clone(), items: keys_from(args, 2) })
}

/// What `BF.MEXISTS` builds from its arguments.
pub open spec fn bf_mexists_spec(a: Seq<Seq<u8>>) -> Result<CommandView, Seq<char>> {
    if a.len() < 3 {
        Err("wrong number of arguments for 'bf.mexists' command"@)
    } else {
        Ok(CommandView::BfMexists { key: a[1], items: a.skip(2) })
    }
}

pub(crate) fn build_bf_mexists(args: &Vec<Bytes>) -> (r: Result<Command, String>)
    requires
        args.len() > 0,
    ensures
        built(r) == bf_mexists_spec(contents(args@)),
{
    if args.len() < 3 {
        return Err("wrong number of arguments for 'bf.mexists' command".to_owned());
    }
    Ok(Command::BfMexists { key: args[1].clone(), items: keys_from(args, 2) })
}

/// What `CMS.QUERY` builds from its arguments.
pub open spec fn cms_query_spec(a: Seq<Seq<u8>>) -> Result<CommandView, Seq<char>> {
    if a.len() < 3 {
        Err("wrong number of arguments for 'cms.query' command"@)
    } else {
        Ok(CommandView::CmsQuery { key: a[1], items: a.skip(2) })
    }
}

pub(crate) fn build_cms_query(args: &Vec<Bytes>) -> (r: Result<Command, String>)
    requires
        args.len() > 0,
    ensures
        built(r) == cms_query_spec(contents(args@)),
{
    if args.len() < 3 {
        return Err("wrong number of arguments for 'cms.query' command".to_owned());
    }
    Ok(Command::CmsQuery { key: args[1].clone(), items: keys_from(args, 2) })
}

/// What `TOPK.ADD` builds from its arguments.
pub open spec fn topk_add_spec(a: Seq<Seq<u8>>) -> Result<CommandView, Seq<char>> {
    if a.len() < 3 {
        Err("wrong number of arguments for 'topk.add' command"@)
    } else {
        Ok(CommandView::TopkAdd { key: a[1], items: a.skip(2) })
    }
}

pub(crate) fn build_topk_add(args: &Vec<Bytes>) -> (r: Result<Command, String>)
    requires
        args.len() > 0,
    ensures
        built(r) == topk_add_spec(contents(args@)),
{
    if args.len() < 3 {
        return Err("wrong number of arguments for 'topk.add' command".to_owned());
    }
    Ok(Command::TopkAdd { key: args[1].clone(), items: keys_from(args, 2) })
}

/// What `TOPK.QUERY` builds from its arguments.
pub open spec fn topk_query_spec(a: Seq<Seq<u8>>) -> Result<CommandView, Seq<char>> {
    if a.len() < 3 {
        Err("wrong number of arguments for 'topk.query' command"@)
    } else {
        Ok(CommandView::TopkQuery { key: a[1], items: a.skip(2) })
    }
}

pub(crate) fn build_topk_query(args: &Vec<Bytes>) -> (r: Result<Command, String>)
    requires
        args.len() > 0,
    ensures
        built(r) == topk_query_spec(contents(args@)),
{
    if args.len() < 3 {
        return Err("wrong number of arguments for 'topk.query' command".to_owned());
    }
    Ok(Command::TopkQuery { key: args[1].clone(), items: keys_from(args, 2) })
}

/// What `BF.INFO` builds from its arguments.
pub open spec fn bf_info_spec(a: Seq<Seq<u8>>) -> Result<CommandView, Seq<char>> {
    if a.len() != 2 {
        Err("wrong number of arguments for 'bf.info' command"@)
    } else {
        Ok(CommandView::BfInfo(a[1]))
    }
}

pub(crate) fn build_bf_info(args: &Vec<Bytes>) -> (r: Result<Command, String>)
    requires
        args.len() > 0,
    ensures
        built(r) == bf_info_spec(contents(args@)),
{
    if args.len() != 2 {
        return Err("wrong number of arguments for 'bf.info' command".to_owned());
    }
    Ok(Command::BfInfo(args[1].clone()))
}

/// What `CF.INFO` builds from its arguments.
pub open spec fn cf_info_spec(a: Seq<Seq<u8>>) -> Result<CommandView, Seq<char>> {
    if a.len() != 2 {
        Err("wrong number of arguments for 'cf.info' command"@)
    } else {
        Ok(CommandView::CfInfo(a[1]))
    }
}

pub(crate) fn build_cf_info(args: &Vec<Bytes>) -> (r: Result<Command, String>)
    requires
        args.len() > 0,
    ensures
        built(r) == cf_info_spec(contents(args@)),
{
    if args.len() != 2 {
        return Err("wrong number of arguments for 'cf.info' command".to_owned());
    }
    Ok(Command::CfInfo(args[1].clone()))
}

/// What `CMS.INFO` builds from its arguments.
pub open spec fn cms_info_spec(a: Seq<Seq<u8>>) -> Result<CommandView, Seq<char>> {
    if a.len() != 2 {
        Err("wrong number of arguments for 'cms.info' command"@)
    } else {
        Ok(CommandView::CmsInfo(a[1]))
    }
}

pub(crate) fn build_cms_info(args: &Vec<Bytes>) -> (r: Result<Command, String>)
    requires
        args.len() > 0,
    ensures
        built(r) == cms_info_spec(contents(args@)),
{
    if args.len() != 2 {
        return Err("wrong number of arguments for 'cms.info' command".to_owned());
    }
    Ok(Command::CmsInfo(args[1].clone()))
}

/// What `TOPK.LIST` builds from its arguments.
pub open spec fn topk_list_spec(a: Seq<Seq<u8>>) -> Result<CommandView, Seq<char>> {
    if a.len() != 2 {
        Err("wrong number of arguments for 'topk.list' command"@)
    } else {
        Ok(CommandView::TopkList(a[1]))
    }
}

pub(crate) fn build_topk_list(args: &Vec<Bytes>) -> (r: Result<Command, String>)
    requires
        args.len() > 0,
    ensures
        built(r) == topk_list_spec(contents(args@)),
{
    if args.len() != 2 {
        return Err("wrong number of arguments for 'topk.list' command".to_owned());
    }
    Ok(Command::TopkList(args[1].clone()))
}

/// What `TOPK.INFO` builds from its arguments.
pub open spec fn topk_info_spec(a: Seq<Seq<u8>>) -> Result<CommandView, Seq<char>> {
    if a.len() != 2 {
        Err("wrong number of arguments for 'topk.info' command"@)
    } else {
        Ok(CommandView::TopkInfo(a[1]))
    }
}

pub(crate) fn build_topk_info(args: &Vec<Bytes>) -> (r: Result<Command, String>)
    requires
        args.len() > 0,
    ensures
        built(r) == topk_info_spec(contents(args@)),
{
    if args.len() != 2 {
        return Err("wrong number of arguments for 'topk.info' command".to_owned());
    }
    Ok(Command::TopkInfo(args[1].clone()))
}

/// What `CF.RESERVE` builds from its arguments.
pub open spec fn cf_reserve_spec(a: Seq<Seq<u8>>) -> Result<CommandView, Seq<char>> {
    if a.len() != 3 {
        Err("wrong number of arguments for 'cf.reserve' command"@)
    } else {
        match usize_of(a[2]) {
            None => Err("not an integer"@),
            Some(capacity) => {
                Ok(CommandView::CfReserve { key: a[1], capacity })
            },
        }
    }
}

pub(crate) fn build_cf_reserve(args: &Vec<Bytes>) -> (r: Result<Command, String>)
    requires
        args.len() > 0,
    ensures
        built(r) == cf_reserve_spec(contents(args@)),
{
    if args.len() != 3 {
        return Err("wrong number of arguments for 'cf.reserve' command".to_owned());
    }
    let capacity: usize = match read_usize(args[2].as_ref()) {
        Some(v) => v,
        None => return Err("not an integer".to_owned()),
    };
    Ok(Command::CfReserve { key: args[1].clone(), capacity })
}

/// What `CMS.INITBYDIM` builds from its arguments.
pub open spec fn cms_initbydim_spec(a: Seq<Seq<u8>>) -> Result<CommandView, Seq<char>> {
    if a.len() != 4 {
        Err("wrong number of arguments for 'cms.initbydim' command"@)
    } else {
        match usize_of(a[2]) {
            None => Err("not an integer"@),
            Some(width) => {
                match usize_of(a[3]) {
                    None => Err("not an integer"@),
                    Some(depth) => {
                        Ok(CommandView::CmsInitbydim { key: a[1], width, depth })
                    },
                }
            },
        }
    }
}

pub(crate) fn build_cms_initbydim(args: &Vec<Bytes>) -> (r: Result<Command, String>)
    requires
        args.len() > 0,
    ensures
        built(r) == cms_initbydim_spec(contents(args@)),
{
    if args.len() != 4 {
        return Err("wrong number of arguments for 'cms.initbydim' command".to_owned());
    }
    let width: usize = match read_usize(args[2].as_ref()) {
        Some(v) => v,
        None => return Err("not an integer".to_owned()),
    };
    let depth: usize = match read_usize(args[3].as_ref()) {
        Some(v) => v,
        None => return Err("not an integer".to_owned()),
    };
    Ok(Command::CmsInitbydim { key: args[1].clone(), width, depth })
}

/// What `CMS.INITBYPROB` builds from its arguments.
pub open spec fn cms_initbyprob_spec(
    a: Seq<Seq<u8>>,
    env: &ParseEnv,
) -> Result<CommandView, Seq<char>> {
    if a.len() != 4 {
        Err("wrong number of arguments for 'cms.initbyprob' command"@)
    } else {
        match double_of(env, a[2]) {
            None => Err("not a valid float"@),
            Some(error) => {
                match double_of(env, a[3]) {
                    None => Err("not a valid float"@),
                    Some(probability) => {
                        Ok(CommandView::CmsInitbyprob { key: a[1], error, probability })
                    },
                }
            },
        }
    }
}

pub(crate) fn build_cms_initbyprob(
    args: &Vec<Bytes>,
    env: &ParseEnv,
) -> (r: Result<Command, String>)
    requires
        args.len() > 0,
    ensures
        built(r) == cms_initbyprob_spec(contents(args@), env),
{
    if args.len() != 4 {
        return Err("wrong number of arguments for 'cms.initbyprob' command".to_owned());
    }
    let error: Double = match env.double(args[2].as_ref()) {
        Some(v) => v,
        None => return Err("not a valid float".to_owned()),
    };
    let probability: Double = match env.double(args[3].as_ref()) {
        Some(v) => v,
        None => return Err("not a valid float".to_owned()),
    };
    Ok(Command::CmsInitbyprob { key: args[1].clone(), error, probability })
}

/// What `CMS.INCRBY` makes of its arguments from `i` on, given what came before them.
pub open spec fn cms_increments(
    a: Seq<Seq<u8>>,
    pairs: Seq<(Seq<u8>, u64)>,
    i: int,
) -> Result<Seq<(Seq<u8>, u64)>, Seq<char>>
    decreases a.len() - i,
{
    if a.len() - i <= 1 {
        Ok(pairs)
    } else {
        match u64_of(a[i + 1]) {
            None => Err("not an integer"@),
            Some(n) => {
                let pairs = pairs.push((a[i], n));
                let i: int = i + 2;
                cms_increments(a, pairs, i)
            },
        }
    }
}

/// What `CMS.INCRBY` builds from its arguments.
pub open spec fn cms_incrby_spec(a: Seq<Seq<u8>>) -> Result<CommandView, Seq<char>> {
    if a.len() < 4 || (a.len() - 2) % 2 != 0 {
        Err("wrong number of arguments for 'cms.incrby' command"@)
    } else {
        let pairs = Seq::<(Seq<u8>, u64)>::empty();
        let i: int = 2;
        match cms_increments(a, pairs, i) {
            Err(e) => Err(e),
            Ok(pairs) => {
                Ok(CommandView::CmsIncrby { key: a[1], pairs })
            },
        }
    }
}

#[verifier::loop_isolation(false)]
pub(crate) fn build_cms_incrby(args: &Vec<Bytes>) -> (r: Result<Command, String>)
    requires
        args.len() > 0,
    ensures
        built(r) == cms_incrby_spec(contents(args@)),
{
    if args.len() < 4 || (args.len() - 2) % 2 != 0 {
        return Err("wrong number of arguments for 'cms.incrby' command".to_owned());
    }
    let mut pairs: Vec<(Bytes, u64)> = no_counted();
    let mut i: usize = 2;
    let ghost goal_cms_increments = cms_increments(contents(args@), counted(pairs@), i as int);
    while args.len() - i > 1
        invariant
            i <= args.len(),
            cms_increments(contents(args@), counted(pairs@), i as int) == goal_cms_increments,
        decreases args.len() - i,
    {
        let n: u64 = match read_u64(args[i + 1].as_ref()) {
            Some(v) => v,
            None => return Err("not an integer".to_owned()),
        };
        push_counted(&mut pairs, args[i].clone(), n);
        i = i + 2;
    }
    Ok(Command::CmsIncrby { key: args[1].clone(), pairs })
}

/// What `TOPK.RESERVE` builds from its arguments.
pub open spec fn topk_reserve_spec(a: Seq<Seq<u8>>) -> Result<CommandView, Seq<char>> {
    if a.len() != 3 {
        Err("wrong number of arguments for 'topk.reserve' command"@)
    } else {
        match usize_of(a[2]) {
            None => Err("not an integer"@),
            Some(topk) => {
                Ok(CommandView::TopkReserve { key: a[1], topk })
            },
        }
    }
}

pub(crate) fn build_topk_reserve(args: &Vec<Bytes>) -> (r: Result<Command, String>)
    requires
        args.len() > 0,
    ensures
        built(r) == topk_reserve_spec(contents(args@)),
{
    if args.len() != 3 {
        return Err("wrong number of arguments for 'topk.reserve' command".to_owned());
    }
    let topk: usize = match read_usize(args[2].as_ref()) {
        Some(v) => v,
        None => return Err("not an integer".to_owned()),
    };
    Ok(Command::TopkReserve { key: args[1].clone(), topk })
}

/// The commands on probabilistic sketches: the command that `name` stands for among them, if it is one.
pub open spec fn sketches_command_spec(
    name: Seq<char>,
    a: Seq<Seq<u8>>,
    env: &ParseEnv,
) -> Option<Result<CommandView, Seq<char>>> {
    if name == "BF.RESERVE"@ {
        Some(bf_reserve_spec(a, env))
    } else if name == "BF.ADD"@ {
        Some(bf_add_spec(a))
    } else if name == "BF.EXISTS"@ {
        Some(bf_exists_spec(a))
    } else if name == "CF.ADD"@ {
        Some(cf_add_spec(a))
    } else if name == "CF.ADDNX"@ {
        Some(cf_addnx_spec(a))
    } else if name == "CF.EXISTS"@ {
        Some(cf_exists_spec(a))
    } else if name == "CF.DEL"@ {
        Some(cf_del_spec(a))
    } else if name == "BF.MADD"@ {
        Some(bf_madd_spec(a))
    } else if name == "BF.MEXISTS"@ {
        Some(bf_mexists_spec(a))
    } else if name == "CMS.QUERY"@ {
        Some(cms_query_spec(a))
    } else if name == "TOPK.ADD"@ {
        Some(topk_add_spec(a))
    } else if name == "TOPK.QUERY"@ {
        Some(topk_query_spec(a))
    } else if name == "BF.INFO"@ {
        Some(bf_info_spec(a))
    } else if name == "CF.INFO"@ {
        Some(cf_info_spec(a))
    } else if name == "CMS.INFO"@ {
        Some(cms_info_spec(a))
    } else if name == "TOPK.LIST"@ {
        Some(topk_list_spec(a))
    } else if name == "TOPK.INFO"@ {
        Some(topk_info_spec(a))
    } else if name == "CF.RESERVE"@ {
        Some(cf_reserve_spec(a))
    } else if name == "CMS.INITBYDIM"@ {
        Some(cms_initbydim_spec(a))
    } else if name == "CMS.INITBYPROB"@ {
        Some(cms_initbyprob_spec(a, env))
    } else if name == "CMS.INCRBY"@ {
        Some(cms_incrby_spec(a))
    } else if name == "TOPK.RESERVE"@ {
        Some(topk_reserve_spec(a))
    } else {
        None
    }
}

pub(crate) fn sketches_command(
    name: &str,
    args: &Vec<Bytes>,
    env: &ParseEnv,
) -> (r: Option<Result<Command, String>>)
    requires
        args.len() > 0,
    ensures
        built_opt(r) == sketches_command_spec(name@, contents(args@), env),
{
    if same_text(name, "BF.RESERVE") {
        Some(build_bf_reserve(args, env))
    } else if same_text(name, "BF.ADD") {
        Some(build_bf_add(args))
    } else if same_text(name, "BF.EXISTS") {
        Some(build_bf_exists(args))
    } else if same_text(name, "CF.ADD") {
        Some(build_cf_add(args))
    } else if same_text(name, "CF.ADDNX") {
        Some(build_cf_addnx(args))
    } else if same_text(name, "CF.EXISTS") {
        Some(build_cf_exists(args))
    } else if same_text(name, "CF.DEL") {
        Some(build_cf_del(args))
    } else if same_text(name, "BF.MADD") {
        Some(build_bf_madd(args))
    } else if same_text(name, "BF.MEXISTS") {
        Some(build_bf_mexists(args))
    } else if same_text(name, "CMS.QUERY") {
        Some(build_cms_query(args))
    } else if same_text(name, "TOPK.ADD") {
        Some(build_topk_add(args))
    } else if same_text(name, "TOPK.QUERY") {
        Some(build_topk_query(args))
    } else if same_text(name, "BF.INFO") {
        Some(build_bf_info(args))
    } else if same_text(name, "CF.INFO") {
        Some(build_cf_info(args))
    } else if same_text(name, "CMS.INFO") {
        Some(build_cms_info(args))
    } else if same_text(name, "TOPK.LIST") {
        Some(build_topk_list(args))
    } else if same_text(name, "TOPK.INFO") {
        Some(build_topk_info(args))
    } else if same_text(name, "CF.RESERVE") {
        Some(build_cf_reserve(args))
    } else if same_text(name, "CMS.INITBYDIM") {
        Some(build_cms_initbydim(args))
    } else if same_text(name, "CMS.INITBYPROB") {
        Some(build_cms_initbyprob(args, env))
    } else if same_text(name, "CMS.INCRBY") {
        Some(build_cms_incrby(args))
    } else if same_text(name, "TOPK.RESERVE") {
        Some(build_topk_reserve(args))
    } else {
        None
    }
}

} // verus!
