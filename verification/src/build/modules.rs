//! Connections, vectors, replicated types, functions and packets.
use bytes::Bytes;
use vstd::prelude::*;

use crate::command::{Command, CommandView, built, built_opt};
use crate::lists::{contents, keys_between, keys_from, login_view, text_opt};
use crate::numbers::{i64_of, read_i64, read_u32, read_u64, read_usize, u32_of, u64_of, usize_of};
use crate::operands::{Single, XdpAction};
use crate::readings::{ParseEnv, metric, metric_of, single_of};
use crate::text::{join2, join3, lossy, lossy_text, same_text, upper, upper_word};

verus! {

/// What is done with a packet, by the upper-case word that names it.
pub open spec fn action_of(word: Seq<char>) -> Option<XdpAction> {
    if word == "DROP"@ {
        Some(XdpAction::Drop)
    } else if word == "PASS"@ {
        Some(XdpAction::Pass)
    } else if word == "REDIRECT"@ {
        Some(XdpAction::Redirect)
    } else if word == "TX"@ {
        Some(XdpAction::Tx)
    } else {
        None
    }
}

fn read_action(word: &str) -> (r: Option<XdpAction>)
    ensures
        r == action_of(word@),
{
    if same_text(word, "DROP") {
        Some(XdpAction::Drop)
    } else if same_text(word, "PASS") {
        Some(XdpAction::Pass)
    } else if same_text(word, "REDIRECT") {
        Some(XdpAction::Redirect)
    } else if same_text(word, "TX") {
        Some(XdpAction::Tx)
    } else {
        None
    }
}

/// What `HELLO` makes of its arguments from `i` on, given what came before them.
pub open spec fn hello_options(
    a: Seq<Seq<u8>>,
    auth: Option<(Seq<char>, Seq<char>)>,
    setname: Option<Seq<char>>,
    i: int,
) -> Result<(Option<(Seq<char>, Seq<char>)>, Option<Seq<char>>), Seq<char>>
    decreases a.len() - i,
{
    if i >= a.len() {
        Ok((auth, setname))
    } else {
        let opt = upper_word(a[i]);
        if opt == "AUTH"@ {
            if a.len() - i <= 2 {
                Err("syntax error"@)
            } else {
                let auth = Some((lossy_text(a[i + 1]), lossy_text(a[i + 2])));
                let i: int = i + 3;
                hello_options(a, auth, setname, i)
            }
        } else if opt == "SETNAME"@ {
            if a.len() - i <= 1 {
                Err("syntax error"@)
            } else {
                let setname = Some(lossy_text(a[i + 1]));
                let i: int = i + 2;
                hello_options(a, auth, setname, i)
            }
        } else {
            let i: int = i + 1;
            hello_options(a, auth, setname, i)
        }
    }
}

/// What `HELLO` builds from its arguments.
pub open spec fn hello_spec(a: Seq<Seq<u8>>) -> Result<CommandView, Seq<char>> {
    let proto: Option<i64> = None;
    let auth: Option<(Seq<char>, Seq<char>)> = None;
    let setname: Option<Seq<char>> = None;
    let i: int = 1;
    let (proto, i) = if i < a.len() {
        match i64_of(a[i]) {
            Some(p) => {
                let proto = Some(p);
                let i: int = i + 1;
                (proto, i)
            },
            None => {
                let first = upper_word(a[i]);
                if first != "AUTH"@ && first != "SETNAME"@ {
                    let proto = Some(-1i64);
                    let i: int = i + 1;
                    (proto, i)
                } else {
                    (proto, i)
                }
            },
        }
    } else {
        (proto, i)
    };
    match hello_options(a, auth, setname, i) {
        Err(e) => Err(e),
        Ok((auth, setname)) => {
            Ok(CommandView::Hello { proto, auth, setname })
        },
    }
}

#[verifier::loop_isolation(false)]
pub(crate) fn build_hello(args: &Vec<Bytes>) -> (r: Result<Command, String>)
    requires
        args.len() > 0,
    ensures
        built(r) == hello_spec(contents(args@)),
{
    let mut proto: Option<i64> = None;
    let mut auth: Option<(String, String)> = None;
    let mut setname: Option<String> = None;
    let mut i: usize = 1;
    if i < args.len() {
        match read_i64(args[i].as_ref()) {
            Some(p) => {
                proto = Some(p);
                i = i + 1;
            },
            None => {
                let first: String = upper(&args[i]);
                if !same_text(&first, "AUTH") && !same_text(&first, "SETNAME") {
                    proto = Some(-1i64);
                    i = i + 1;
                }
            },
        }
    }
    let ghost goal_hello_options = hello_options(
        contents(args@),
        login_view(auth),
        text_opt(setname),
        i as int,
    );
    while i < args.len()
        invariant
            i <= args.len(),
            hello_options(
                contents(args@),
                login_view(auth),
                text_opt(setname),
                i as int,
            ) == goal_hello_options,
        decreases args.len() - i,
    {
        let opt: String = upper(&args[i]);
        if same_text(&opt, "AUTH") {
            if args.len() - i <= 2 {
                return Err("syntax error".to_owned());
            }
            auth = Some((lossy(&args[i + 1]), lossy(&args[i + 2])));
            i = i + 3;
        } else if same_text(&opt, "SETNAME") {
            if args.len() - i <= 1 {
                return Err("syntax error".to_owned());
            }
            setname = Some(lossy(&args[i + 1]));
            i = i + 2;
        } else {
            i = i + 1;
        }
    }
    Ok(Command::Hello { proto, auth, setname })
}

/// What `RESET` builds from its arguments.
pub open spec fn reset_spec(a: Seq<Seq<u8>>) -> Result<CommandView, Seq<char>> {
    Ok(CommandView::Reset)
}

pub(crate) fn build_reset(args: &Vec<Bytes>) -> (r: Result<Command, String>)
    requires
        args.len() > 0,
    ensures
        built(r) == reset_spec(contents(args@)),
{
    Ok(Command::Reset)
}

/// What `TIME` builds from its arguments.
pub open spec fn time_spec(a: Seq<Seq<u8>>) -> Result<CommandView, Seq<char>> {
    Ok(CommandView::Time)
}

pub(crate) fn build_time(args: &Vec<Bytes>) -> (r: Result<Command, String>)
    requires
        args.len() > 0,
    ensures
        built(r) == time_spec(contents(args@)),
{
    Ok(Command::Time)
}

/// What `ECHO` builds from its arguments.
pub open spec fn echo_spec(a: Seq<Seq<u8>>) -> Result<CommandView, Seq<char>> {
    if a.len() != 2 {
        Err("wrong number of arguments for 'echo' command"@)
    } else {
        Ok(CommandView::Echo(a[1]))
    }
}

pub(crate) fn build_echo(args: &Vec<Bytes>) -> (r: Result<Command, String>)
    requires
        args.len() > 0,
    ensures
        built(r) == echo_spec(contents(args@)),
{
    if args.len() != 2 {
        return Err("wrong number of arguments for 'echo' command".to_owned());
    }
    Ok(Command::Echo(args[1].clone()))
}

/// What `VADD` makes of its arguments from `i` on, given what came before them.
pub open spec fn vadd_items(
    a: Seq<Seq<u8>>,
    env: &ParseEnv,
    vector: Seq<Single>,
    quantize: bool,
    pq: bool,
    tiered: bool,
    i: int,
) -> Result<(Seq<Single>, bool, bool, bool), Seq<char>>
    decreases a.len() - i,
{
    if i >= a.len() {
        Ok((vector, quantize, pq, tiered))
    } else {
        let item = upper_word(a[i]);
        if item == "QUANTIZE"@ || item == "SQ8"@ {
            let quantize = true;
            let i: int = i + 1;
            vadd_items(a, env, vector, quantize, pq, tiered, i)
        } else if item == "PQ"@ {
            let pq = true;
            let i: int = i + 1;
            vadd_items(a, env, vector, quantize, pq, tiered, i)
        } else if item == "TIERED"@ {
            let tiered = true;
            let i: int = i + 1;
            vadd_items(a, env, vector, quantize, pq, tiered, i)
        } else {
            match single_of(env, a[i]) {
                None => Err("not a valid float"@),
                Some(x) => {
                    let vector = vector.push(x);
                    let i: int = i + 1;
                    vadd_items(a, env, vector, quantize, pq, tiered, i)
                },
            }
        }
    }
}

/// What `VADD` builds from its arguments.
pub open spec fn vadd_spec(a: Seq<Seq<u8>>, env: &ParseEnv) -> Result<CommandView, Seq<char>> {
    if a.len() < 4 {
        Err("wrong number of arguments for 'vadd' command"@)
    } else {
        let vector = Seq::<Single>::empty();
        let quantize = false;
        let pq = false;
        let tiered = false;
        let i: int = 3;
        match vadd_items(a, env, vector, quantize, pq, tiered, i) {
            Err(e) => Err(e),
            Ok((vector, quantize, pq, tiered)) => {
                Ok(CommandView::Vadd {
                    index: lossy_text(a[1]),
                    key: a[2],
                    vector,
                    metric: None,
                    quantize,
                    pq,
                    tiered,
                })
            },
        }
    }
}

#[verifier::loop_isolation(false)]
pub(crate) fn build_vadd(args: &Vec<Bytes>, env: &ParseEnv) -> (r: Result<Command, String>)
    requires
        args.len() > 0,
    ensures
        built(r) == vadd_spec(contents(args@), env),
{
    if args.len() < 4 {
        return Err("wrong number of arguments for 'vadd' command".to_owned());
    }
    let mut vector: Vec<Single> = Vec::new();
    let mut quantize: bool = false;
    let mut pq: bool = false;
    let mut tiered: bool = false;
    let mut i: usize = 3;
    let ghost goal_vadd_items = vadd_items(
        contents(args@),
        env,
        vector@,
        quantize,
        pq,
        tiered,
        i as int,
    );
    while i < args.len()
        invariant
            i <= args.len(),
            vadd_items(
                contents(args@),
                env,
                vector@,
                quantize,
                pq,
                tiered,
                i as int,
            ) == goal_vadd_items,
        decreases args.len() - i,
    {
        let item: String = upper(&args[i]);
        if same_text(&item, "QUANTIZE") || same_text(&item, "SQ8") {
            quantize = true;
        } else if same_text(&item, "PQ") {
            pq = true;
        } else if same_text(&item, "TIERED") {
            tiered = true;
        } else {
            let x: Single = match env.single(args[i].as_ref()) {
                Some(v) => v,
                None => return Err("not a valid float".to_owned()),
            };
            vector.push(x);
        }
        i = i + 1;
    }
    Ok(Command::Vadd {
        index: lossy(&args[1]),
        key: args[2].clone(),
        vector,
        metric: None,
        quantize,
        pq,
        tiered,
    })
}

/// What `VQUERY` makes of its arguments from `i` on, given what came before them.
pub open spec fn vquery_items(
    a: Seq<Seq<u8>>,
    env: &ParseEnv,
    query: Seq<Single>,
    rerank: bool,
    i: int,
) -> Result<(Seq<Single>, bool), Seq<char>>
    decreases a.len() - i,
{
    if i >= a.len() {
        Ok((query, rerank))
    } else {
        let item = upper_word(a[i]);
        if item == "RERANK"@ {
            let rerank = true;
            let i: int = i + 1;
            vquery_items(a, env, query, rerank, i)
        } else {
            match single_of(env, a[i]) {
                None => Err("not a valid float"@),
                Some(x) => {
                    let query = query.push(x);
                    let i: int = i + 1;
                    vquery_items(a, env, query, rerank, i)
                },
            }
        }
    }
}

/// What `VQUERY` builds from its arguments.
pub open spec fn vquery_spec(a: Seq<Seq<u8>>, env: &ParseEnv) -> Result<CommandView, Seq<char>> {
    if a.len() < 4 {
        Err("wrong number of arguments for 'vquery' command"@)
    } else {
        match usize_of(a[2]) {
            None => Err("value is not an integer or out of range"@),
            Some(k) => {
                let query = Seq::<Single>::empty();
                let rerank = false;
                let i: int = 3;
                match vquery_items(a, env, query, rerank, i) {
                    Err(e) => Err(e),
                    Ok((query, rerank)) => {
                        Ok(CommandView::Vquery { index: lossy_text(a[1]), k, query, rerank })
                    },
                }
            },
        }
    }
}

#[verifier::loop_isolation(false)]
pub(crate) fn build_vquery(args: &Vec<Bytes>, env: &ParseEnv) -> (r: Result<Command, String>)
    requires
        args.len() > 0,
    ensures
        built(r) == vquery_spec(contents(args@), env),
{
    if args.len() < 4 {
        return Err("wrong number of arguments for 'vquery' command".to_owned());
    }
    let k: usize = match read_usize(args[2].as_ref()) {
        Some(v) => v,
        None => return Err("value is not an integer or out of range".to_owned()),
    };
    let mut query: Vec<Single> = Vec::new();
    let mut rerank: bool = false;
    let mut i: usize = 3;
    let ghost goal_vquery_items = vquery_items(contents(args@), env, query@, rerank, i as int);
    while i < args.len()
        invariant
            i <= args.len(),
            vquery_items(contents(args@), env, query@, rerank, i as int) == goal_vquery_items,
        decreases args.len() - i,
    {
        let item: String = upper(&args[i]);
        if same_text(&item, "RERANK") {
            rerank = true;
        } else {
            let x: Single = match env.single(args[i].as_ref()) {
                Some(v) => v,
                None => return Err("not a valid float".to_owned()),
            };
            query.push(x);
        }
        i = i + 1;
    }
    Ok(Command::Vquery { index: lossy(&args[1]), k, query, rerank })
}

/// What `CRDT.SET` builds from its arguments.
pub open spec fn crdt_set_spec(a: Seq<Seq<u8>>) -> Result<CommandView, Seq<char>> {
    if a.len() != 3 {
        Err("wrong number of arguments for 'crdt.set' command"@)
    } else {
        Ok(CommandView::CrdtSet { key: a[1], val: a[2] })
    }
}

pub(crate) fn build_crdt_set(args: &Vec<Bytes>) -> (r: Result<Command, String>)
    requires
        args.len() > 0,
    ensures
        built(r) == crdt_set_spec(contents(args@)),
{
    if args.len() != 3 {
        return Err("wrong number of arguments for 'crdt.set' command".to_owned());
    }
    Ok(Command::CrdtSet { key: args[1].clone(), val: args[2].clone() })
}

/// What `CRDT.GET` builds from its arguments.
pub open spec fn crdt_get_spec(a: Seq<Seq<u8>>) -> Result<CommandView, Seq<char>> {
    if a.len() != 2 {
        Err("wrong number of arguments for 'crdt.get' command"@)
    } else {
        Ok(CommandView::CrdtGet(a[1]))
    }
}

pub(crate) fn build_crdt_get(args: &Vec<Bytes>) -> (r: Result<Command, String>)
    requires
        args.len() > 0,
    ensures
        built(r) == crdt_get_spec(contents(args@)),
{
    if args.len() != 2 {
        return Err("wrong number of arguments for 'crdt.get' command".to_owned());
    }
    Ok(Command::CrdtGet(args[1].clone()))
}

/// What `CRDT.DEL` builds from its arguments.
pub open spec fn crdt_del_spec(a: Seq<Seq<u8>>) -> Result<CommandView, Seq<char>> {
    if a.len() != 2 {
        Err("wrong number of arguments for 'crdt.del' command"@)
    } else {
        Ok(CommandView::CrdtDel(a[1]))
    }
}

pub(crate) fn build_crdt_del(args: &Vec<Bytes>) -> (r: Result<Command, String>)
    requires
        args.len() > 0,
    ensures
        built(r) == crdt_del_spec(contents(args@)),
{
    if args.len() != 2 {
        return Err("wrong number of arguments for 'crdt.del' command".to_owned());
    }
    Ok(Command::CrdtDel(args[1].clone()))
}

/// What `CRDT.SMEMBERS` builds from its arguments.
pub open spec fn crdt_smembers_spec(a: Seq<Seq<u8>>) -> Result<CommandView, Seq<char>> {
    if a.len() != 2 {
        Err("wrong number of arguments for 'crdt.smembers' command"@)
    } else {
        Ok(CommandView::CrdtSmembers(a[1]))
    }
}

pub(crate) fn build_crdt_smembers(args: &Vec<Bytes>) -> (r: Result<Command, String>)
    requires
        args.len() > 0,
    ensures
        built(r) == crdt_smembers_spec(contents(args@)),
{
    if args.len() != 2 {
        return Err("wrong number of arguments for 'crdt.smembers' command".to_owned());
    }
    Ok(Command::CrdtSmembers(args[1].clone()))
}

/// What `CRDT.MERGE` builds from its arguments.
pub open spec fn crdt_merge_spec(a: Seq<Seq<u8>>) -> Result<CommandView, Seq<char>> {
    if a.len() != 2 {
        Err("wrong number of arguments for 'crdt.merge' command"@)
    } else {
        Ok(CommandView::CrdtMerge(a[1]))
    }
}

pub(crate) fn build_crdt_merge(args: &Vec<Bytes>) -> (r: Result<Command, String>)
    requires
        args.len() > 0,
    ensures
        built(r) == crdt_merge_spec(contents(args@)),
{
    if args.len() != 2 {
        return Err("wrong number of arguments for 'crdt.merge' command".to_owned());
    }
    Ok(Command::CrdtMerge(args[1].clone()))
}

/// What `CRDT.INCRBY` builds from its arguments.
pub open spec fn crdt_incrby_spec(a: Seq<Seq<u8>>) -> Result<CommandView, Seq<char>> {
    if a.len() != 3 {
        Err("wrong number of arguments for 'crdt.incrby' command"@)
    } else {
        match i64_of(a[2]) {
            None => Err("value is not an integer or out of range"@),
            Some(delta) => {
                Ok(CommandView::CrdtIncrby { key: a[1], delta })
            },
        }
    }
}

pub(crate) fn build_crdt_incrby(args: &Vec<Bytes>) -> (r: Result<Command, String>)
    requires
        args.len() > 0,
    ensures
        built(r) == crdt_incrby_spec(contents(args@)),
{
    if args.len() != 3 {
        return Err("wrong number of arguments for 'crdt.incrby' command".to_owned());
    }
    let delta: i64 = match read_i64(args[2].as_ref()) {
        Some(v) => v,
        None => return Err("value is not an integer or out of range".to_owned()),
    };
    Ok(Command::CrdtIncrby { key: args[1].clone(), delta })
}

/// What `CRDT.SADD` builds from its arguments.
pub open spec fn crdt_sadd_spec(a: Seq<Seq<u8>>) -> Result<CommandView, Seq<char>> {
    if a.len() < 3 {
        Err("wrong number of arguments for 'crdt.sadd' command"@)
    } else {
        Ok(CommandView::CrdtSadd { key: a[1], member: a[2] })
    }
}

pub(crate) fn build_crdt_sadd(args: &Vec<Bytes>) -> (r: Result<Command, String>)
    requires
        args.len() > 0,
    ensures
        built(r) == crdt_sadd_spec(contents(args@)),
{
    if args.len() < 3 {
        return Err("wrong number of arguments for 'crdt.sadd' command".to_owned());
    }
    Ok(Command::CrdtSadd { key: args[1].clone(), member: args[2].clone() })
}

/// What `CRDT.SREM` builds from its arguments.
pub open spec fn crdt_srem_spec(a: Seq<Seq<u8>>) -> Result<CommandView, Seq<char>> {
    if a.len() != 3 {
        Err("wrong number of arguments for 'crdt.srem' command"@)
    } else {
        Ok(CommandView::CrdtSrem { key: a[1], member: a[2] })
    }
}

pub(crate) fn build_crdt_srem(args: &Vec<Bytes>) -> (r: Result<Command, String>)
    requires
        args.len() > 0,
    ensures
        built(r) == crdt_srem_spec(contents(args@)),
{
    if args.len() != 3 {
        return Err("wrong number of arguments for 'crdt.srem' command".to_owned());
    }
    Ok(Command::CrdtSrem { key: args[1].clone(), member: args[2].clone() })
}

/// What `CRDT.DUMP` builds from its arguments.
pub open spec fn crdt_dump_spec(a: Seq<Seq<u8>>) -> Result<CommandView, Seq<char>> {
    Ok(CommandView::CrdtDump)
}

pub(crate) fn build_crdt_dump(args: &Vec<Bytes>) -> (r: Result<Command, String>)
    requires
        args.len() > 0,
    ensures
        built(r) == crdt_dump_spec(contents(args@)),
{
    Ok(Command::CrdtDump)
}

/// What `CRDT.GC` builds from its arguments.
pub open spec fn crdt_gc_spec(a: Seq<Seq<u8>>) -> Result<CommandView, Seq<char>> {
    if a.len() > 1 {
        match u64_of(a[1]) {
            None => Err("value is not an integer or out of range"@),
            Some(ttl) => {
                Ok(CommandView::CrdtGc(Some(ttl)))
            },
        }
    } else {
        Ok(CommandView::CrdtGc(None))
    }
}

pub(crate) fn build_crdt_gc(args: &Vec<Bytes>) -> (r: Result<Command, String>)
    requires
        args.len() > 0,
    ensures
        built(r) == crdt_gc_spec(contents(args@)),
{
    if args.len() > 1 {
        let ttl: u64 = match read_u64(args[1].as_ref()) {
            Some(v) => v,
            None => return Err("value is not an integer or out of range".to_owned()),
        };
        Ok(Command::CrdtGc(Some(ttl)))
    } else {
        Ok(Command::CrdtGc(None))
    }
}

/// What `VSIM` builds from its arguments.
pub open spec fn vsim_spec(a: Seq<Seq<u8>>) -> Result<CommandView, Seq<char>> {
    if a.len() < 4 {
        Err("wrong number of arguments for 'vsim' command"@)
    } else if a.len() > 4 {
        Ok(CommandView::Vsim {
            index: lossy_text(a[1]),
            k1: a[2],
            k2: a[3],
            metric: metric_of(upper_word(a[4])),
        })
    } else {
        Ok(CommandView::Vsim { index: lossy_text(a[1]), k1: a[2], k2: a[3], metric: None })
    }
}

pub(crate) fn build_vsim(args: &Vec<Bytes>) -> (r: Result<Command, String>)
    requires
        args.len() > 0,
    ensures
        built(r) == vsim_spec(contents(args@)),
{
    if args.len() < 4 {
        return Err("wrong number of arguments for 'vsim' command".to_owned());
    }
    if args.len() > 4 {
        Ok(Command::Vsim {
            index: lossy(&args[1]),
            k1: args[2].clone(),
            k2: args[3].clone(),
            metric: metric(upper(&args[4]).as_str()),
        })
    } else {
        Ok(Command::Vsim {
            index: lossy(&args[1]),
            k1: args[2].clone(),
            k2: args[3].clone(),
            metric: None,
        })
    }
}

/// What `VDEL` builds from its arguments.
pub open spec fn vdel_spec(a: Seq<Seq<u8>>) -> Result<CommandView, Seq<char>> {
    if a.len() != 3 {
        Err("wrong number of arguments for 'vdel' command"@)
    } else {
        Ok(CommandView::Vdel { index: lossy_text(a[1]), key: a[2] })
    }
}

pub(crate) fn build_vdel(args: &Vec<Bytes>) -> (r: Result<Command, String>)
    requires
        args.len() > 0,
    ensures
        built(r) == vdel_spec(contents(args@)),
{
    if args.len() != 3 {
        return Err("wrong number of arguments for 'vdel' command".to_owned());
    }
    Ok(Command::Vdel { index: lossy(&args[1]), key: args[2].clone() })
}

/// What `VINFO` builds from its arguments.
pub open spec fn vinfo_spec(a: Seq<Seq<u8>>) -> Result<CommandView, Seq<char>> {
    if a.len() != 2 {
        Err("wrong number of arguments for 'vinfo' command"@)
    } else {
        Ok(CommandView::Vinfo(lossy_text(a[1])))
    }
}

pub(crate) fn build_vinfo(args: &Vec<Bytes>) -> (r: Result<Command, String>)
    requires
        args.len() > 0,
    ensures
        built(r) == vinfo_spec(contents(args@)),
{
    if args.len() != 2 {
        return Err("wrong number of arguments for 'vinfo' command".to_owned());
    }
    Ok(Command::Vinfo(lossy(&args[1])))
}

/// What `FUNCTION` builds from its arguments.
pub open spec fn function_spec(a: Seq<Seq<u8>>) -> Result<CommandView, Seq<char>> {
    if a.len() < 2 {
        Err("wrong number of arguments for 'function' command"@)
    } else {
        let sub = upper_word(a[1]);
        if sub == "LOAD"@ {
            if a.len() < 3 {
                Err("wrong number of arguments for 'function load' command"@)
            } else {
                let second = upper_word(a[2]);
                if a.len() >= 4 && second == "REPLACE"@ {
                    Ok(CommandView::FunctionLoad { replace: true, code: a[3] })
                } else {
                    Ok(CommandView::FunctionLoad { replace: false, code: a[2] })
                }
            }
        } else if sub == "LIST"@ {
            Ok(CommandView::FunctionList)
        } else if sub == "FLUSH"@ {
            Ok(CommandView::FunctionFlush)
        } else if sub == "DELETE"@ {
            if a.len() != 3 {
                Err("wrong number of arguments for 'function delete' command"@)
            } else {
                Ok(CommandView::FunctionDelete(lossy_text(a[2])))
            }
        } else {
            Ok(CommandView::Unknown("FUNCTION "@ + sub))
        }
    }
}

pub(crate) fn build_function(args: &Vec<Bytes>) -> (r: Result<Command, String>)
    requires
        args.len() > 0,
    ensures
        built(r) == function_spec(contents(args@)),
{
    if args.len() < 2 {
        return Err("wrong number of arguments for 'function' command".to_owned());
    }
    let sub: String = upper(&args[1]);
    if same_text(&sub, "LOAD") {
        if args.len() < 3 {
            return Err("wrong number of arguments for 'function load' command".to_owned());
        }
        let second: String = upper(&args[2]);
        if args.len() >= 4 && same_text(&second, "REPLACE") {
            Ok(Command::FunctionLoad { replace: true, code: args[3].clone() })
        } else {
            Ok(Command::FunctionLoad { replace: false, code: args[2].clone() })
        }
    } else if same_text(&sub, "LIST") {
        Ok(Command::FunctionList)
    } else if same_text(&sub, "FLUSH") {
        Ok(Command::FunctionFlush)
    } else if same_text(&sub, "DELETE") {
        if args.len() != 3 {
            return Err("wrong number of arguments for 'function delete' command".to_owned());
        }
        Ok(Command::FunctionDelete(lossy(&args[2])))
    } else {
        Ok(Command::Unknown(join2("FUNCTION ", sub.as_str())))
    }
}

/// What `FCALL` / `FCALL_RO` builds from its arguments.
pub open spec fn fcall_spec(a: Seq<Seq<u8>>) -> Result<CommandView, Seq<char>> {
    if a.len() < 3 {
        Err("wrong number of arguments for 'fcall' command"@)
    } else {
        match usize_of(a[2]) {
            None => Err("value is not an integer or out of range"@),
            Some(numkeys) => {
                if numkeys > a.len() - 3 {
                    Err("Number of keys can't be greater than number of args"@)
                } else {
                    let at: int = numkeys + 3;
                    Ok(CommandView::Fcall {
                        function: lossy_text(a[1]),
                        keys: a.subrange(3, at),
                        args: a.skip(at),
                    })
                }
            },
        }
    }
}

pub(crate) fn build_fcall(args: &Vec<Bytes>) -> (r: Result<Command, String>)
    requires
        args.len() > 0,
    ensures
        built(r) == fcall_spec(contents(args@)),
{
    if args.len() < 3 {
        return Err("wrong number of arguments for 'fcall' command".to_owned());
    }
    let numkeys: usize = match read_usize(args[2].as_ref()) {
        Some(v) => v,
        None => return Err("value is not an integer or out of range".to_owned()),
    };
    if numkeys > args.len() - 3 {
        return Err("Number of keys can't be greater than number of args".to_owned());
    }
    let at: usize = numkeys + 3;
    Ok(Command::Fcall {
        function: lossy(&args[1]),
        keys: keys_between(args, 3, at),
        args: keys_from(args, at),
    })
}

/// What `XDP.INFO` builds from its arguments.
pub open spec fn xdp_info_spec(a: Seq<Seq<u8>>) -> Result<CommandView, Seq<char>> {
    Ok(CommandView::XdpInfo)
}

pub(crate) fn build_xdp_info(args: &Vec<Bytes>) -> (r: Result<Command, String>)
    requires
        args.len() > 0,
    ensures
        built(r) == xdp_info_spec(contents(args@)),
{
    Ok(Command::XdpInfo)
}

/// What `XDP.RULE` builds from its arguments.
pub open spec fn xdp_rule_spec(a: Seq<Seq<u8>>) -> Result<CommandView, Seq<char>> {
    if a.len() < 2 {
        Err("wrong number of arguments for 'xdp.rule' command"@)
    } else {
        let sub = upper_word(a[1]);
        if sub == "ADD"@ {
            if a.len() < 4 {
                Err("wrong number of arguments for 'xdp.rule add' command"@)
            } else {
                let word = upper_word(a[2]);
                match action_of(upper_word(a[2])) {
                    Some(action) => {
                        Ok(CommandView::XdpRuleAdd { action, cidr: lossy_text(a[3]) })
                    },
                    None => {
                        Err("Unknown XDP action: "@ + word + ""@)
                    },
                }
            }
        } else if sub == "DEL"@ {
            if a.len() != 3 {
                Err("wrong number of arguments for 'xdp.rule del' command"@)
            } else {
                match u32_of(a[2]) {
                    None => Err("Invalid rule ID"@),
                    Some(id) => {
                        Ok(CommandView::XdpRuleDel(id))
                    },
                }
            }
        } else if sub == "LIST"@ {
            Ok(CommandView::XdpRuleList)
        } else {
            Err("Unknown xdp.rule subcommand: "@ + sub + ""@)
        }
    }
}

pub(crate) fn build_xdp_rule(args: &Vec<Bytes>) -> (r: Result<Command, String>)
    requires
        args.len() > 0,
    ensures
        built(r) == xdp_rule_spec(contents(args@)),
{
    if args.len() < 2 {
        return Err("wrong number of arguments for 'xdp.rule' command".to_owned());
    }
    let sub: String = upper(&args[1]);
    if same_text(&sub, "ADD") {
        if args.len() < 4 {
            return Err("wrong number of arguments for 'xdp.rule add' command".to_owned());
        }
        let word: String = upper(&args[2]);
        match read_action(upper(&args[2]).as_str()) {
            Some(action) => {
                Ok(Command::XdpRuleAdd { action, cidr: lossy(&args[3]) })
            },
            None => {
                Err(join3("Unknown XDP action: ", word.as_str(), ""))
            },
        }
    } else if same_text(&sub, "DEL") {
        if args.len() != 3 {
            return Err("wrong number of arguments for 'xdp.rule del' command".to_owned());
        }
        let id: u32 = match read_u32(args[2].as_ref()) {
            Some(v) => v,
            None => return Err("Invalid rule ID".to_owned()),
        };
        Ok(Command::XdpRuleDel(id))
    } else if same_text(&sub, "LIST") {
        Ok(Command::XdpRuleList)
    } else {
        Err(join3("Unknown xdp.rule subcommand: ", sub.as_str(), ""))
    }
}

/// What `XDP.STATS` builds from its arguments.
pub open spec fn xdp_stats_spec(a: Seq<Seq<u8>>) -> Result<CommandView, Seq<char>> {
    Ok(CommandView::XdpStats)
}

pub(crate) fn build_xdp_stats(args: &Vec<Bytes>) -> (r: Result<Command, String>)
    requires
        args.len() > 0,
    ensures
        built(r) == xdp_stats_spec(contents(args@)),
{
    Ok(Command::XdpStats)
}

/// What `XDP.PACKET` builds from its arguments.
pub open spec fn xdp_packet_spec(a: Seq<Seq<u8>>) -> Result<CommandView, Seq<char>> {
    if a.len() != 2 {
        Err("wrong number of arguments for 'xdp.packet' command"@)
    } else {
        Ok(CommandView::XdpPacket(a[1]))
    }
}

pub(crate) fn build_xdp_packet(args: &Vec<Bytes>) -> (r: Result<Command, String>)
    requires
        args.len() > 0,
    ensures
        built(r) == xdp_packet_spec(contents(args@)),
{
    if args.len() != 2 {
        return Err("wrong number of arguments for 'xdp.packet' command".to_owned());
    }
    Ok(Command::XdpPacket(args[1].clone()))
}

/// What `XDP.SOCKET` builds from its arguments.
pub open spec fn xdp_socket_spec(a: Seq<Seq<u8>>) -> Result<CommandView, Seq<char>> {
    if a.len() != 2 {
        Err("wrong number of arguments for 'xdp.socket' command"@)
    } else {
        match u32_of(a[1]) {
            Some(queue) => {
                Ok(CommandView::XdpSocket(queue))
            },
            None => {
                Ok(CommandView::XdpSocket(0))
            },
        }
    }
}

pub(crate) fn build_xdp_socket(args: &Vec<Bytes>) -> (r: Result<Command, String>)
    requires
        args.len() > 0,
    ensures
        built(r) == xdp_socket_spec(contents(args@)),
{
    if args.len() != 2 {
        return Err("wrong number of arguments for 'xdp.socket' command".to_owned());
    }
    match read_u32(args[1].as_ref()) {
        Some(queue) => {
            Ok(Command::XdpSocket(queue))
        },
        None => {
            Ok(Command::XdpSocket(0))
        },
    }
}

/// What `XDP.INJECT` builds from its arguments.
pub open spec fn xdp_inject_spec(a: Seq<Seq<u8>>) -> Result<CommandView, Seq<char>> {
    if a.len() != 3 {
        Err("wrong number of arguments for 'xdp.inject' command"@)
    } else {
        match u32_of(a[1]) {
            Some(queue) => {
                Ok(CommandView::XdpInject { queue_id: queue, payload: a[2] })
            },
            None => {
                Ok(CommandView::XdpInject { queue_id: 0, payload: a[2] })
            },
        }
    }
}

pub(crate) fn build_xdp_inject(args: &Vec<Bytes>) -> (r: Result<Command, String>)
    requires
        args.len() > 0,
    ensures
        built(r) == xdp_inject_spec(contents(args@)),
{
    if args.len() != 3 {
        return Err("wrong number of arguments for 'xdp.inject' command".to_owned());
    }
    match read_u32(args[1].as_ref()) {
        Some(queue) => {
            Ok(Command::XdpInject { queue_id: queue, payload: args[2].clone() })
        },
        None => {
            Ok(Command::XdpInject { queue_id: 0, payload: args[2].clone() })
        },
    }
}

/// The commands on connections, vectors, replicated types, functions and packets: the command that `name` stands for among them, if it is one.
pub open spec fn modules_command_spec(
    name: Seq<char>,
    a: Seq<Seq<u8>>,
    env: &ParseEnv,
) -> Option<Result<CommandView, Seq<char>>> {
    if name == "HELLO"@ {
        Some(hello_spec(a))
    } else if name == "RESET"@ {
        Some(reset_spec(a))
    } else if name == "TIME"@ {
        Some(time_spec(a))
    } else if name == "ECHO"@ {
        Some(echo_spec(a))
    } else if name == "VADD"@ {
        Some(vadd_spec(a, env))
    } else if name == "VQUERY"@ {
        Some(vquery_spec(a, env))
    } else if name == "CRDT.SET"@ {
        Some(crdt_set_spec(a))
    } else if name == "CRDT.GET"@ {
        Some(crdt_get_spec(a))
    } else if name == "CRDT.DEL"@ {
        Some(crdt_del_spec(a))
    } else if name == "CRDT.SMEMBERS"@ {
        Some(crdt_smembers_spec(a))
    } else if name == "CRDT.MERGE"@ {
        Some(crdt_merge_spec(a))
    } else if name == "CRDT.INCRBY"@ {
        Some(crdt_incrby_spec(a))
    } else if name == "CRDT.SADD"@ {
        Some(crdt_sadd_spec(a))
    } else if name == "CRDT.SREM"@ {
        Some(crdt_srem_spec(a))
    } else if name == "CRDT.DUMP"@ {
        Some(crdt_dump_spec(a))
    } else if name == "CRDT.GC"@ {
        Some(crdt_gc_spec(a))
    } else if name == "VSIM"@ {
        Some(vsim_spec(a))
    } else if name == "VDEL"@ {
        Some(vdel_spec(a))
    } else if name == "VINFO"@ {
        Some(vinfo_spec(a))
    } else if name == "FUNCTION"@ {
        Some(function_spec(a))
    } else if name == "FCALL"@ || name == "FCALL_RO"@ {
        Some(fcall_spec(a))
    } else if name == "XDP.INFO"@ {
        Some(xdp_info_spec(a))
    } else if name == "XDP.RULE"@ {
        Some(xdp_rule_spec(a))
    } else if name == "XDP.STATS"@ {
        Some(xdp_stats_spec(a))
    } else if name == "XDP.PACKET"@ {
        Some(xdp_packet_spec(a))
    } else if name == "XDP.SOCKET"@ {
        Some(xdp_socket_spec(a))
    } else if name == "XDP.INJECT"@ {
        Some(xdp_inject_spec(a))
    } else {
        None
    }
}

pub(crate) fn modules_command(
    name: &str,
    args: &Vec<Bytes>,
    env: &ParseEnv,
) -> (r: Option<Result<Command, String>>)
    requires
        args.len() > 0,
    ensures
        built_opt(r) == modules_command_spec(name@, contents(args@), env),
{
    if same_text(name, "HELLO") {
        Some(build_hello(args))
    } else if same_text(name, "RESET") {
        Some(build_reset(args))
    } else if same_text(name, "TIME") {
        Some(build_time(args))
    } else if same_text(name, "ECHO") {
        Some(build_echo(args))
    } else if same_text(name, "VADD") {
        Some(build_vadd(args, env))
    } else if same_text(name, "VQUERY") {
        Some(build_vquery(args, env))
    } else if same_text(name, "CRDT.SET") {
        Some(build_crdt_set(args))
    } else if same_text(name, "CRDT.GET") {
        Some(build_crdt_get(args))
    } else if same_text(name, "CRDT.DEL") {
        Some(build_crdt_del(args))
    } else if same_text(name, "CRDT.SMEMBERS") {
        Some(build_crdt_smembers(args))
    } else if same_text(name, "CRDT.MERGE") {
        Some(build_crdt_merge(args))
    } else if same_text(name, "CRDT.INCRBY") {
        Some(build_crdt_incrby(args))
    } else if same_text(name, "CRDT.SADD") {
        Some(build_crdt_sadd(args))
    } else if same_text(name, "CRDT.SREM") {
        Some(build_crdt_srem(args))
    } else if same_text(name, "CRDT.DUMP") {
        Some(build_crdt_dump(args))
    } else if same_text(name, "CRDT.GC") {
        Some(build_crdt_gc(args))
    } else if same_text(name, "VSIM") {
        Some(build_vsim(args))
    } else if same_text(name, "VDEL") {
        Some(build_vdel(args))
    } else if same_text(name, "VINFO") {
        Some(build_vinfo(args))
    } else if same_text(name, "FUNCTION") {
        Some(build_function(args))
    } else if same_text(name, "FCALL") || same_text(name, "FCALL_RO") {
        Some(build_fcall(args))
    } else if same_text(name, "XDP.INFO") {
        Some(build_xdp_info(args))
    } else if same_text(name, "XDP.RULE") {
        Some(build_xdp_rule(args))
    } else if same_text(name, "XDP.STATS") {
        Some(build_xdp_stats(args))
    } else if same_text(name, "XDP.PACKET") {
        Some(build_xdp_packet(args))
    } else if same_text(name, "XDP.SOCKET") {
        Some(build_xdp_socket(args))
    } else if same_text(name, "XDP.INJECT") {
        Some(build_xdp_inject(args))
    } else {
        None
    }
}

} // verus!
