//! Streams.
use bytes::Bytes;
use vstd::prelude::*;
use vstd::utf8::*;

use crate::command::{Command, CommandView, built, built_opt};
use crate::lists::{contents, keys_between, lossy_texts, paired, pairs_from, texts_from};
use crate::numbers::{read_u64, read_usize, u64_of, usize_of};
use crate::operands::{StreamAddId, StreamId};
use crate::readings::{read, stream_add_id, stream_add_id_spec, stream_id, stream_id_spec};
use crate::text::{
    is_utf8, join2, lossy, lossy_text, same_bytes, same_text, spells, spells_word, upper,
    upper_word,
};

verus! {

/// The lower end of a range of entries: a hyphen stands for the first entry there can be.
pub open spec fn first_id_spec(b: Seq<u8>) -> Result<StreamId, Seq<char>> {
    if !valid_utf8(b) {
        Err("syntax error"@)
    } else if b == seq![45u8] {
        Ok(StreamId { ms: 0, seq: 0 })
    } else {
        stream_id_spec(b)
    }
}

fn first_id(b: &[u8]) -> (r: Result<StreamId, String>)
    ensures
        read(r) == first_id_spec(b@),
{
    if !is_utf8(b) {
        return Err("syntax error".to_owned());
    }
    if b.len() == 1 && b[0] == 45 {
        assert(b@ =~= seq![45u8]);
        return Ok(StreamId { ms: 0, seq: 0 });
    }
    assert(b@ != seq![45u8]) by {
        if b@ == seq![45u8] {
            assert(b@[0] == 45);
        }
    }
    stream_id(b)
}

/// The upper end of a range of entries: a plus sign stands for the last entry there can be.
pub open spec fn last_id_spec(b: Seq<u8>) -> Result<StreamId, Seq<char>> {
    if !valid_utf8(b) {
        Err("syntax error"@)
    } else if b == seq![43u8] {
        Ok(StreamId { ms: u64::MAX, seq: u64::MAX })
    } else {
        stream_id_spec(b)
    }
}

fn last_id(b: &[u8]) -> (r: Result<StreamId, String>)
    ensures
        read(r) == last_id_spec(b@),
{
    if !is_utf8(b) {
        return Err("syntax error".to_owned());
    }
    if b.len() == 1 && b[0] == 43 {
        assert(b@ =~= seq![43u8]);
        return Ok(StreamId { ms: u64::MAX, seq: u64::MAX });
    }
    assert(b@ != seq![43u8]) by {
        if b@ == seq![43u8] {
            assert(b@[0] == 43);
        }
    }
    stream_id(b)
}

/// What `XADD` makes of its arguments from `i` on, given what came before them.
pub open spec fn xadd_options(
    a: Seq<Seq<u8>>,
    nomkstream: bool,
    maxlen: Option<usize>,
    minid: Option<StreamId>,
    i: int,
) -> Result<(bool, Option<usize>, Option<StreamId>, int), Seq<char>>
    decreases a.len() - i,
{
    if i >= a.len() {
        Ok((nomkstream, maxlen, minid, i))
    } else {
        let opt = upper_word(a[i]);
        if opt == "NOMKSTREAM"@ {
            let nomkstream = true;
            let i: int = i + 1;
            xadd_options(a, nomkstream, maxlen, minid, i)
        } else if opt == "MAXLEN"@ {
            let i: int = i + 1;
            let i = if i < a.len() && (a[i] == encode_utf8("="@) || a[i] == encode_utf8("~"@)) {
                let i: int = i + 1;
                i
            } else {
                i
            };
            if i >= a.len() {
                Err("syntax error"@)
            } else {
                match usize_of(a[i]) {
                    None => Err("value is not an integer or out of range"@),
                    Some(n) => {
                        let maxlen = Some(n);
                        let i: int = i + 1;
                        xadd_options(a, nomkstream, maxlen, minid, i)
                    },
                }
            }
        } else if opt == "MINID"@ {
            let i: int = i + 1;
            let i = if i < a.len() && (a[i] == encode_utf8("="@) || a[i] == encode_utf8("~"@)) {
                let i: int = i + 1;
                i
            } else {
                i
            };
            if i >= a.len() {
                Err("syntax error"@)
            } else {
                match stream_id_spec(a[i]) {
                    Err(e) => Err(e),
                    Ok(id) => {
                        let minid = Some(id);
                        let i: int = i + 1;
                        xadd_options(a, nomkstream, maxlen, minid, i)
                    },
                }
            }
        } else if opt == "LIMIT"@ {
            if a.len() - i <= 1 {
                Err("syntax error"@)
            } else {
                let i: int = i + 2;
                xadd_options(a, nomkstream, maxlen, minid, i)
            }
        } else {
            Ok((nomkstream, maxlen, minid, i))
        }
    }
}

/// What `XADD` builds from its arguments.
pub open spec fn xadd_spec(a: Seq<Seq<u8>>) -> Result<CommandView, Seq<char>> {
    if a.len() < 4 {
        Err("wrong number of arguments for 'xadd' command"@)
    } else {
        let nomkstream = false;
        let maxlen: Option<usize> = None;
        let minid: Option<StreamId> = None;
        let i: int = 2;
        match xadd_options(a, nomkstream, maxlen, minid, i) {
            Err(e) => Err(e),
            Ok((nomkstream, maxlen, minid, i)) => {
                if i >= a.len() {
                    Err("wrong number of arguments for 'xadd' command"@)
                } else {
                    match stream_add_id_spec(a[i]) {
                        Err(e) => Err(e),
                        Ok(id) => {
                            if a.len() - i <= 1 || (a.len() - i - 1) % 2 != 0 {
                                Err("wrong number of arguments for 'xadd' command"@)
                            } else {
                                Ok(CommandView::Xadd {
                                    key: a[1],
                                    nomkstream,
                                    maxlen,
                                    minid,
                                    id,
                                    fields: paired(a.skip(i + 1)),
                                })
                            }
                        },
                    }
                }
            },
        }
    }
}

#[verifier::loop_isolation(false)]
pub(crate) fn build_xadd(args: &Vec<Bytes>) -> (r: Result<Command, String>)
    requires
        args.len() > 0,
    ensures
        built(r) == xadd_spec(contents(args@)),
{
    if args.len() < 4 {
        return Err("wrong number of arguments for 'xadd' command".to_owned());
    }
    let mut nomkstream: bool = false;
    let mut maxlen: Option<usize> = None;
    let mut minid: Option<StreamId> = None;
    let mut i: usize = 2;
    let ghost goal_xadd_options = xadd_options(
        contents(args@),
        nomkstream,
        maxlen,
        minid,
        i as int,
    );
    while i < args.len()
        invariant
            i <= args.len(),
            xadd_options(contents(args@), nomkstream, maxlen, minid, i as int) == goal_xadd_options,
        decreases args.len() - i,
    {
        let opt: String = upper(&args[i]);
        if same_text(&opt, "NOMKSTREAM") {
            nomkstream = true;
            i = i + 1;
        } else if same_text(&opt, "MAXLEN") {
            i = i + 1;
            if i < args.len() && (same_bytes(
                args[i].as_ref(),
                "=".as_bytes(),
            ) || same_bytes(args[i].as_ref(), "~".as_bytes())) {
                i = i + 1;
            }
            if i >= args.len() {
                return Err("syntax error".to_owned());
            }
            let n: usize = match read_usize(args[i].as_ref()) {
                Some(v) => v,
                None => return Err("value is not an integer or out of range".to_owned()),
            };
            maxlen = Some(n);
            i = i + 1;
        } else if same_text(&opt, "MINID") {
            i = i + 1;
            if i < args.len() && (same_bytes(
                args[i].as_ref(),
                "=".as_bytes(),
            ) || same_bytes(args[i].as_ref(), "~".as_bytes())) {
                i = i + 1;
            }
            if i >= args.len() {
                return Err("syntax error".to_owned());
            }
            let id: StreamId = match stream_id(args[i].as_ref()) {
                Ok(v) => v,
                Err(e) => return Err(e),
            };
            minid = Some(id);
            i = i + 1;
        } else if same_text(&opt, "LIMIT") {
            if args.len() - i <= 1 {
                return Err("syntax error".to_owned());
            }
            i = i + 2;
        } else {
            break;
        }
    }
    if i >= args.len() {
        return Err("wrong number of arguments for 'xadd' command".to_owned());
    }
    let id: StreamAddId = match stream_add_id(args[i].as_ref()) {
        Ok(v) => v,
        Err(e) => return Err(e),
    };
    if args.len() - i <= 1 || (args.len() - i - 1) % 2 != 0 {
        return Err("wrong number of arguments for 'xadd' command".to_owned());
    }
    Ok(Command::Xadd {
        key: args[1].clone(),
        nomkstream,
        maxlen,
        minid,
        id,
        fields: pairs_from(args, i + 1),
    })
}

/// What `XLEN` builds from its arguments.
pub open spec fn xlen_spec(a: Seq<Seq<u8>>) -> Result<CommandView, Seq<char>> {
    if a.len() != 2 {
        Err("wrong number of arguments for 'xlen' command"@)
    } else {
        Ok(CommandView::Xlen(a[1]))
    }
}

pub(crate) fn build_xlen(args: &Vec<Bytes>) -> (r: Result<Command, String>)
    requires
        args.len() > 0,
    ensures
        built(r) == xlen_spec(contents(args@)),
{
    if args.len() != 2 {
        return Err("wrong number of arguments for 'xlen' command".to_owned());
    }
    Ok(Command::Xlen(args[1].clone()))
}

/// What `XRANGE` builds from its arguments.
pub open spec fn xrange_spec(a: Seq<Seq<u8>>) -> Result<CommandView, Seq<char>> {
    if a.len() < 4 || a.len() > 6 {
        Err("wrong number of arguments for 'xrange' command"@)
    } else if a.len() == 6 {
        let opt = upper_word(a[4]);
        if opt != "COUNT"@ {
            Err("syntax error"@)
        } else {
            match usize_of(a[5]) {
                None => Err("value is not an integer or out of range"@),
                Some(n) => {
                    Ok(CommandView::Xrange {
                        key: a[1],
                        start: lossy_text(a[2]),
                        end: lossy_text(a[3]),
                        count: Some(n),
                    })
                },
            }
        }
    } else if a.len() != 4 {
        Err("syntax error"@)
    } else {
        Ok(CommandView::Xrange {
            key: a[1],
            start: lossy_text(a[2]),
            end: lossy_text(a[3]),
            count: None,
        })
    }
}

pub(crate) fn build_xrange(args: &Vec<Bytes>) -> (r: Result<Command, String>)
    requires
        args.len() > 0,
    ensures
        built(r) == xrange_spec(contents(args@)),
{
    if args.len() < 4 || args.len() > 6 {
        return Err("wrong number of arguments for 'xrange' command".to_owned());
    }
    if args.len() == 6 {
        let opt: String = upper(&args[4]);
        if !same_text(&opt, "COUNT") {
            return Err("syntax error".to_owned());
        }
        let n: usize = match read_usize(args[5].as_ref()) {
            Some(v) => v,
            None => return Err("value is not an integer or out of range".to_owned()),
        };
        Ok(Command::Xrange {
            key: args[1].clone(),
            start: lossy(&args[2]),
            end: lossy(&args[3]),
            count: Some(n),
        })
    } else {
        if args.len() != 4 {
            return Err("syntax error".to_owned());
        }
        Ok(Command::Xrange {
            key: args[1].clone(),
            start: lossy(&args[2]),
            end: lossy(&args[3]),
            count: None,
        })
    }
}

/// What `XREVRANGE` builds from its arguments.
pub open spec fn xrevrange_spec(a: Seq<Seq<u8>>) -> Result<CommandView, Seq<char>> {
    if a.len() < 4 || a.len() > 6 {
        Err("wrong number of arguments for 'xrevrange' command"@)
    } else if a.len() == 6 {
        let opt = upper_word(a[4]);
        if opt != "COUNT"@ {
            Err("syntax error"@)
        } else {
            match usize_of(a[5]) {
                None => Err("value is not an integer or out of range"@),
                Some(n) => {
                    Ok(CommandView::Xrevrange {
                        key: a[1],
                        end: lossy_text(a[2]),
                        start: lossy_text(a[3]),
                        count: Some(n),
                    })
                },
            }
        }
    } else if a.len() != 4 {
        Err("syntax error"@)
    } else {
        Ok(CommandView::Xrevrange {
            key: a[1],
            end: lossy_text(a[2]),
            start: lossy_text(a[3]),
            count: None,
        })
    }
}

pub(crate) fn build_xrevrange(args: &Vec<Bytes>) -> (r: Result<Command, String>)
    requires
        args.len() > 0,
    ensures
        built(r) == xrevrange_spec(contents(args@)),
{
    if args.len() < 4 || args.len() > 6 {
        return Err("wrong number of arguments for 'xrevrange' command".to_owned());
    }
    if args.len() == 6 {
        let opt: String = upper(&args[4]);
        if !same_text(&opt, "COUNT") {
            return Err("syntax error".to_owned());
        }
        let n: usize = match read_usize(args[5].as_ref()) {
            Some(v) => v,
            None => return Err("value is not an integer or out of range".to_owned()),
        };
        Ok(Command::Xrevrange {
            key: args[1].clone(),
            end: lossy(&args[2]),
            start: lossy(&args[3]),
            count: Some(n),
        })
    } else {
        if args.len() != 4 {
            return Err("syntax error".to_owned());
        }
        Ok(Command::Xrevrange {
            key: args[1].clone(),
            end: lossy(&args[2]),
            start: lossy(&args[3]),
            count: None,
        })
    }
}

/// What `XREAD` makes of its arguments from `i` on, given what came before them.
pub open spec fn xread_options(
    a: Seq<Seq<u8>>,
    count: Option<usize>,
    block_ms: Option<u64>,
    i: int,
) -> Result<(Option<usize>, Option<u64>, int), Seq<char>>
    decreases a.len() - i,
{
    if i >= a.len() {
        Ok((count, block_ms, i))
    } else {
        let opt = upper_word(a[i]);
        if opt == "COUNT"@ {
            if a.len() - i <= 1 {
                Err("syntax error"@)
            } else {
                match usize_of(a[i + 1]) {
                    None => Err("value is not an integer or out of range"@),
                    Some(n) => {
                        let count = Some(n);
                        let i: int = i + 2;
                        xread_options(a, count, block_ms, i)
                    },
                }
            }
        } else if opt == "BLOCK"@ {
            if a.len() - i <= 1 {
                Err("syntax error"@)
            } else {
                match u64_of(a[i + 1]) {
                    None => Err("value is not an integer or out of range"@),
                    Some(ms) => {
                        let block_ms = Some(ms);
                        let i: int = i + 2;
                        xread_options(a, count, block_ms, i)
                    },
                }
            }
        } else if opt == "STREAMS"@ {
            let i: int = i + 1;
            Ok((count, block_ms, i))
        } else {
            Err("syntax error"@)
        }
    }
}

/// What `XREAD` builds from its arguments.
pub open spec fn xread_spec(a: Seq<Seq<u8>>) -> Result<CommandView, Seq<char>> {
    if a.len() < 4 {
        Err("wrong number of arguments for 'xread' command"@)
    } else {
        let count: Option<usize> = None;
        let block_ms: Option<u64> = None;
        let i: int = 1;
        match xread_options(a, count, block_ms, i) {
            Err(e) => Err(e),
            Ok((count, block_ms, i)) => {
                if a.len() - i < 2 || (a.len() - i) % 2 != 0 {
                    Err("ERR Unbalanced XREAD list of streams and IDs"@)
                } else {
                    let mid: int = i + (a.len() - i) / 2;
                    Ok(CommandView::Xread {
                        count,
                        block_ms,
                        keys: a.subrange(i, mid),
                        ids: lossy_texts(a.skip(mid)),
                    })
                }
            },
        }
    }
}

#[verifier::loop_isolation(false)]
pub(crate) fn build_xread(args: &Vec<Bytes>) -> (r: Result<Command, String>)
    requires
        args.len() > 0,
    ensures
        built(r) == xread_spec(contents(args@)),
{
    if args.len() < 4 {
        return Err("wrong number of arguments for 'xread' command".to_owned());
    }
    let mut count: Option<usize> = None;
    let mut block_ms: Option<u64> = None;
    let mut i: usize = 1;
    let ghost goal_xread_options = xread_options(contents(args@), count, block_ms, i as int);
    while i < args.len()
        invariant
            i <= args.len(),
            xread_options(contents(args@), count, block_ms, i as int) == goal_xread_options,
        decreases args.len() - i,
    {
        let opt: String = upper(&args[i]);
        if same_text(&opt, "COUNT") {
            if args.len() - i <= 1 {
                return Err("syntax error".to_owned());
            }
            let n: usize = match read_usize(args[i + 1].as_ref()) {
                Some(v) => v,
                None => return Err("value is not an integer or out of range".to_owned()),
            };
            count = Some(n);
            i = i + 2;
        } else if same_text(&opt, "BLOCK") {
            if args.len() - i <= 1 {
                return Err("syntax error".to_owned());
            }
            let ms: u64 = match read_u64(args[i + 1].as_ref()) {
                Some(v) => v,
                None => return Err("value is not an integer or out of range".to_owned()),
            };
            block_ms = Some(ms);
            i = i + 2;
        } else if same_text(&opt, "STREAMS") {
            i = i + 1;
            break;
        } else {
            return Err("syntax error".to_owned());
        }
    }
    if args.len() - i < 2 || (args.len() - i) % 2 != 0 {
        return Err("ERR Unbalanced XREAD list of streams and IDs".to_owned());
    }
    let mid: usize = i + (args.len() - i) / 2;
    Ok(Command::Xread {
        count,
        block_ms,
        keys: keys_between(args, i, mid),
        ids: texts_from(args, mid),
    })
}

/// What `XREADGROUP` makes of its arguments from `i` on, given what came before them.
pub open spec fn xreadgroup_options(
    a: Seq<Seq<u8>>,
    count: Option<usize>,
    block_ms: Option<u64>,
    noack: bool,
    i: int,
) -> Result<(Option<usize>, Option<u64>, bool, int), Seq<char>>
    decreases a.len() - i,
{
    if i >= a.len() {
        Ok((count, block_ms, noack, i))
    } else {
        let opt = upper_word(a[i]);
        if opt == "COUNT"@ {
            if a.len() - i <= 1 {
                Err("syntax error"@)
            } else {
                match usize_of(a[i + 1]) {
                    None => Err("value is not an integer or out of range"@),
                    Some(n) => {
                        let count = Some(n);
                        let i: int = i + 2;
                        xreadgroup_options(a, count, block_ms, noack, i)
                    },
                }
            }
        } else if opt == "BLOCK"@ {
            if a.len() - i <= 1 {
                Err("syntax error"@)
            } else {
                match u64_of(a[i + 1]) {
                    None => Err("value is not an integer or out of range"@),
                    Some(ms) => {
                        let block_ms = Some(ms);
                        let i: int = i + 2;
                        xreadgroup_options(a, count, block_ms, noack, i)
                    },
                }
            }
        } else if opt == "NOACK"@ {
            let noack = true;
            let i: int = i + 1;
            xreadgroup_options(a, count, block_ms, noack, i)
        } else if opt == "STREAMS"@ {
            let i: int = i + 1;
            Ok((count, block_ms, noack, i))
        } else {
            Err("syntax error"@)
        }
    }
}

/// What `XREADGROUP` builds from its arguments.
pub open spec fn xreadgroup_spec(a: Seq<Seq<u8>>) -> Result<CommandView, Seq<char>> {
    if a.len() < 6 {
        Err("wrong number of arguments for 'xreadgroup' command"@)
    } else if !spells(a[1], "GROUP"@) {
        Err("syntax error"@)
    } else {
        let count: Option<usize> = None;
        let block_ms: Option<u64> = None;
        let noack = false;
        let i: int = 4;
        match xreadgroup_options(a, count, block_ms, noack, i) {
            Err(e) => Err(e),
            Ok((count, block_ms, noack, i)) => {
                if a.len() - i < 2 || (a.len() - i) % 2 != 0 {
                    Err("ERR Unbalanced XREADGROUP list of streams and IDs"@)
                } else {
                    let mid: int = i + (a.len() - i) / 2;
                    Ok(CommandView::Xreadgroup {
                        group: a[2],
                        consumer: a[3],
                        count,
                        block_ms,
                        noack,
                        keys: a.subrange(i, mid),
                        ids: lossy_texts(a.skip(mid)),
                    })
                }
            },
        }
    }
}

#[verifier::loop_isolation(false)]
pub(crate) fn build_xreadgroup(args: &Vec<Bytes>) -> (r: Result<Command, String>)
    requires
        args.len() > 0,
    ensures
        built(r) == xreadgroup_spec(contents(args@)),
{
    if args.len() < 6 {
        return Err("wrong number of arguments for 'xreadgroup' command".to_owned());
    }
    if !spells_word(args[1].as_ref(), "GROUP") {
        return Err("syntax error".to_owned());
    }
    let mut count: Option<usize> = None;
    let mut block_ms: Option<u64> = None;
    let mut noack: bool = false;
    let mut i: usize = 4;
    let ghost goal_xreadgroup_options = xreadgroup_options(
        contents(args@),
        count,
        block_ms,
        noack,
        i as int,
    );
    while i < args.len()
        invariant
            i <= args.len(),
            xreadgroup_options(
                contents(args@),
                count,
                block_ms,
                noack,
                i as int,
            ) == goal_xreadgroup_options,
        decreases args.len() - i,
    {
        let opt: String = upper(&args[i]);
        if same_text(&opt, "COUNT") {
            if args.len() - i <= 1 {
                return Err("syntax error".to_owned());
            }
            let n: usize = match read_usize(args[i + 1].as_ref()) {
                Some(v) => v,
                None => return Err("value is not an integer or out of range".to_owned()),
            };
            count = Some(n);
            i = i + 2;
        } else if same_text(&opt, "BLOCK") {
            if args.len() - i <= 1 {
                return Err("syntax error".to_owned());
            }
            let ms: u64 = match read_u64(args[i + 1].as_ref()) {
                Some(v) => v,
                None => return Err("value is not an integer or out of range".to_owned()),
            };
            block_ms = Some(ms);
            i = i + 2;
        } else if same_text(&opt, "NOACK") {
            noack = true;
            i = i + 1;
        } else if same_text(&opt, "STREAMS") {
            i = i + 1;
            break;
        } else {
            return Err("syntax error".to_owned());
        }
    }
    if args.len() - i < 2 || (args.len() - i) % 2 != 0 {
        return Err("ERR Unbalanced XREADGROUP list of streams and IDs".to_owned());
    }
    let mid: usize = i + (args.len() - i) / 2;
    Ok(Command::Xreadgroup {
        group: args[2].clone(),
        consumer: args[3].clone(),
        count,
        block_ms,
        noack,
        keys: keys_between(args, i, mid),
        ids: texts_from(args, mid),
    })
}

/// What identifiers of entries from `i` on add to those before them.
pub open spec fn entry_ids(
    a: Seq<Seq<u8>>,
    ids: Seq<StreamId>,
    i: int,
) -> Result<Seq<StreamId>, Seq<char>>
    decreases a.len() - i,
{
    if i >= a.len() {
        Ok(ids)
    } else {
        match stream_id_spec(a[i]) {
            Err(e) => Err(e),
            Ok(id) => {
                let ids = ids.push(id);
                let i: int = i + 1;
                entry_ids(a, ids, i)
            },
        }
    }
}

/// Reads identifiers of entries from `from` on.
#[verifier::loop_isolation(false)]
pub(crate) fn read_entry_ids(args: &Vec<Bytes>, from: usize) -> (r: Result<Vec<StreamId>, String>)
    requires
        from <= args.len(),
    ensures
        match entry_ids(contents(args@), Seq::empty(), from as int) {
            Ok(x) => r matches Ok(y) && x == y@,
            Err(e) => r matches Err(y) && y@ == e,
        },
{
    let mut ids: Vec<StreamId> = Vec::new();
    let mut i: usize = from;
    let ghost goal = entry_ids(contents(args@), ids@, i as int);
    while i < args.len()
        invariant
            i <= args.len(),
            entry_ids(contents(args@), ids@, i as int) == goal,
        decreases args.len() - i,
    {
        let id: StreamId = match stream_id(args[i].as_ref()) {
            Ok(v) => v,
            Err(e) => return Err(e),
        };
        ids.push(id);
        i = i + 1;
    }
    Ok(ids)
}

/// What `XDEL` builds from its arguments.
pub open spec fn xdel_spec(a: Seq<Seq<u8>>) -> Result<CommandView, Seq<char>> {
    if a.len() < 3 {
        Err("wrong number of arguments for 'xdel' command"@)
    } else {
        let ids = Seq::<StreamId>::empty();
        let i: int = 2;
        match entry_ids(a, ids, i) {
            Err(e) => Err(e),
            Ok(ids) => {
                Ok(CommandView::Xdel { key: a[1], ids })
            },
        }
    }
}

pub(crate) fn build_xdel(args: &Vec<Bytes>) -> (r: Result<Command, String>)
    requires
        args.len() > 0,
    ensures
        built(r) == xdel_spec(contents(args@)),
{
    if args.len() < 3 {
        return Err("wrong number of arguments for 'xdel' command".to_owned());
    }
    let ids: Vec<StreamId> = match read_entry_ids(args, 2) {
        Ok(v) => v,
        Err(e) => return Err(e),
    };
    Ok(Command::Xdel { key: args[1].clone(), ids })
}

/// What `XACK` builds from its arguments.
pub open spec fn xack_spec(a: Seq<Seq<u8>>) -> Result<CommandView, Seq<char>> {
    if a.len() < 4 {
        Err("wrong number of arguments for 'xack' command"@)
    } else {
        let ids = Seq::<StreamId>::empty();
        let i: int = 3;
        match entry_ids(a, ids, i) {
            Err(e) => Err(e),
            Ok(ids) => {
                Ok(CommandView::Xack { key: a[1], group: a[2], ids })
            },
        }
    }
}

pub(crate) fn build_xack(args: &Vec<Bytes>) -> (r: Result<Command, String>)
    requires
        args.len() > 0,
    ensures
        built(r) == xack_spec(contents(args@)),
{
    if args.len() < 4 {
        return Err("wrong number of arguments for 'xack' command".to_owned());
    }
    let ids: Vec<StreamId> = match read_entry_ids(args, 3) {
        Ok(v) => v,
        Err(e) => return Err(e),
    };
    Ok(Command::Xack { key: args[1].clone(), group: args[2].clone(), ids })
}

/// What `XTRIM` makes of its arguments from `i` on, given what came before them.
pub open spec fn xtrim_options(
    a: Seq<Seq<u8>>,
    maxlen: Option<usize>,
    minid: Option<StreamId>,
    i: int,
) -> Result<(Option<usize>, Option<StreamId>), Seq<char>>
    decreases a.len() - i,
{
    if i >= a.len() {
        Ok((maxlen, minid))
    } else {
        let opt = upper_word(a[i]);
        if opt == "MAXLEN"@ {
            let i: int = i + 1;
            let i = if i < a.len() && (a[i] == encode_utf8("="@) || a[i] == encode_utf8("~"@)) {
                let i: int = i + 1;
                i
            } else {
                i
            };
            if i >= a.len() {
                Err("syntax error"@)
            } else {
                match usize_of(a[i]) {
                    None => Err("value is not an integer or out of range"@),
                    Some(n) => {
                        let maxlen = Some(n);
                        let i: int = i + 1;
                        xtrim_options(a, maxlen, minid, i)
                    },
                }
            }
        } else if opt == "MINID"@ {
            let i: int = i + 1;
            let i = if i < a.len() && (a[i] == encode_utf8("="@) || a[i] == encode_utf8("~"@)) {
                let i: int = i + 1;
                i
            } else {
                i
            };
            if i >= a.len() {
                Err("syntax error"@)
            } else {
                match stream_id_spec(a[i]) {
                    Err(e) => Err(e),
                    Ok(id) => {
                        let minid = Some(id);
                        let i: int = i + 1;
                        xtrim_options(a, maxlen, minid, i)
                    },
                }
            }
        } else if opt == "LIMIT"@ {
            if a.len() - i <= 1 {
                Err("syntax error"@)
            } else {
                let i: int = i + 2;
                xtrim_options(a, maxlen, minid, i)
            }
        } else {
            let i: int = i + 1;
            xtrim_options(a, maxlen, minid, i)
        }
    }
}

/// What `XTRIM` builds from its arguments.
pub open spec fn xtrim_spec(a: Seq<Seq<u8>>) -> Result<CommandView, Seq<char>> {
    if a.len() < 4 {
        Err("wrong number of arguments for 'xtrim' command"@)
    } else {
        let maxlen: Option<usize> = None;
        let minid: Option<StreamId> = None;
        let i: int = 2;
        match xtrim_options(a, maxlen, minid, i) {
            Err(e) => Err(e),
            Ok((maxlen, minid)) => {
                Ok(CommandView::Xtrim { key: a[1], maxlen, minid })
            },
        }
    }
}

#[verifier::loop_isolation(false)]
pub(crate) fn build_xtrim(args: &Vec<Bytes>) -> (r: Result<Command, String>)
    requires
        args.len() > 0,
    ensures
        built(r) == xtrim_spec(contents(args@)),
{
    if args.len() < 4 {
        return Err("wrong number of arguments for 'xtrim' command".to_owned());
    }
    let mut maxlen: Option<usize> = None;
    let mut minid: Option<StreamId> = None;
    let mut i: usize = 2;
    let ghost goal_xtrim_options = xtrim_options(contents(args@), maxlen, minid, i as int);
    while i < args.len()
        invariant
            i <= args.len(),
            xtrim_options(contents(args@), maxlen, minid, i as int) == goal_xtrim_options,
        decreases args.len() - i,
    {
        let opt: String = upper(&args[i]);
        if same_text(&opt, "MAXLEN") {
            i = i + 1;
            if i < args.len() && (same_bytes(
                args[i].as_ref(),
                "=".as_bytes(),
            ) || same_bytes(args[i].as_ref(), "~".as_bytes())) {
                i = i + 1;
            }
            if i >= args.len() {
                return Err("syntax error".to_owned());
            }
            let n: usize = match read_usize(args[i].as_ref()) {
                Some(v) => v,
                None => return Err("value is not an integer or out of range".to_owned()),
            };
            maxlen = Some(n);
            i = i + 1;
        } else if same_text(&opt, "MINID") {
            i = i + 1;
            if i < args.len() && (same_bytes(
                args[i].as_ref(),
                "=".as_bytes(),
            ) || same_bytes(args[i].as_ref(), "~".as_bytes())) {
                i = i + 1;
            }
            if i >= args.len() {
                return Err("syntax error".to_owned());
            }
            let id: StreamId = match stream_id(args[i].as_ref()) {
                Ok(v) => v,
                Err(e) => return Err(e),
            };
            minid = Some(id);
            i = i + 1;
        } else if same_text(&opt, "LIMIT") {
            if args.len() - i <= 1 {
                return Err("syntax error".to_owned());
            }
            i = i + 2;
        } else {
            i = i + 1;
        }
    }
    Ok(Command::Xtrim { key: args[1].clone(), maxlen, minid })
}

/// What `XGROUP CREATE` makes of its arguments from `i` on, given what came before them.
pub open spec fn xgroup_create_options(a: Seq<Seq<u8>>, mkstream: bool, i: int) -> bool
    decreases a.len() - i,
{
    if i >= a.len() {
        mkstream
    } else {
        let mkstream = if spells(a[i], "MKSTREAM"@) {
            let mkstream = true;
            mkstream
        } else {
            mkstream
        };
        let i: int = i + 1;
        xgroup_create_options(a, mkstream, i)
    }
}

/// What `XGROUP CREATE` builds from its arguments.
pub open spec fn xgroup_create_spec(a: Seq<Seq<u8>>) -> Result<CommandView, Seq<char>> {
    if a.len() < 5 {
        Err("wrong number of arguments for 'xgroup create' command"@)
    } else {
        let mkstream = false;
        let i: int = 5;
        let mkstream = xgroup_create_options(a, mkstream, i);
        Ok(CommandView::XgroupCreate { key: a[2], group: a[3], id: lossy_text(a[4]), mkstream })
    }
}

#[verifier::loop_isolation(false)]
pub(crate) fn build_xgroup_create(args: &Vec<Bytes>) -> (r: Result<Command, String>)
    requires
        args.len() > 1,
    ensures
        built(r) == xgroup_create_spec(contents(args@)),
{
    if args.len() < 5 {
        return Err("wrong number of arguments for 'xgroup create' command".to_owned());
    }
    let mut mkstream: bool = false;
    let mut i: usize = 5;
    let ghost goal_xgroup_create_options = xgroup_create_options(
        contents(args@),
        mkstream,
        i as int,
    );
    while i < args.len()
        invariant
            i <= args.len(),
            xgroup_create_options(
                contents(args@),
                mkstream,
                i as int,
            ) == goal_xgroup_create_options,
        decreases args.len() - i,
    {
        if spells_word(args[i].as_ref(), "MKSTREAM") {
            mkstream = true;
        }
        i = i + 1;
    }
    Ok(Command::XgroupCreate {
        key: args[2].clone(),
        group: args[3].clone(),
        id: lossy(&args[4]),
        mkstream,
    })
}

/// What `XGROUP` builds from its arguments.
pub open spec fn xgroup_spec(a: Seq<Seq<u8>>) -> Result<CommandView, Seq<char>> {
    if a.len() < 2 {
        Err("wrong number of arguments for 'xgroup' command"@)
    } else {
        let sub = upper_word(a[1]);
        if sub == "CREATE"@ {
            xgroup_create_spec(a)
        } else if sub == "DESTROY"@ {
            if a.len() < 4 {
                Err("wrong number of arguments for 'xgroup destroy' command"@)
            } else {
                Ok(CommandView::XgroupDestroy { key: a[2], group: a[3] })
            }
        } else if sub == "CREATECONSUMER"@ {
            if a.len() < 5 {
                Err("wrong number of arguments for 'xgroup createconsumer' command"@)
            } else {
                Ok(CommandView::XgroupCreateConsumer { key: a[2], group: a[3], consumer: a[4] })
            }
        } else if sub == "DELCONSUMER"@ {
            if a.len() < 5 {
                Err("wrong number of arguments for 'xgroup delconsumer' command"@)
            } else {
                Ok(CommandView::XgroupDelConsumer { key: a[2], group: a[3], consumer: a[4] })
            }
        } else {
            Ok(CommandView::Unknown("XGROUP "@ + sub))
        }
    }
}

pub(crate) fn build_xgroup(args: &Vec<Bytes>) -> (r: Result<Command, String>)
    requires
        args.len() > 0,
    ensures
        built(r) == xgroup_spec(contents(args@)),
{
    if args.len() < 2 {
        return Err("wrong number of arguments for 'xgroup' command".to_owned());
    }
    let sub: String = upper(&args[1]);
    if same_text(&sub, "CREATE") {
        build_xgroup_create(args)
    } else if same_text(&sub, "DESTROY") {
        if args.len() < 4 {
            return Err("wrong number of arguments for 'xgroup destroy' command".to_owned());
        }
        Ok(Command::XgroupDestroy { key: args[2].clone(), group: args[3].clone() })
    } else if same_text(&sub, "CREATECONSUMER") {
        if args.len() < 5 {
            return Err("wrong number of arguments for 'xgroup createconsumer' command".to_owned());
        }
        Ok(Command::XgroupCreateConsumer {
            key: args[2].clone(),
            group: args[3].clone(),
            consumer: args[4].clone(),
        })
    } else if same_text(&sub, "DELCONSUMER") {
        if args.len() < 5 {
            return Err("wrong number of arguments for 'xgroup delconsumer' command".to_owned());
        }
        Ok(Command::XgroupDelConsumer {
            key: args[2].clone(),
            group: args[3].clone(),
            consumer: args[4].clone(),
        })
    } else {
        Ok(Command::Unknown(join2("XGROUP ", sub.as_str())))
    }
}

/// What `XPENDING` builds from its arguments.
pub open spec fn xpending_spec(a: Seq<Seq<u8>>) -> Result<CommandView, Seq<char>> {
    if a.len() < 3 {
        Err("wrong number of arguments for 'xpending' command"@)
    } else if a.len() == 3 {
        Ok(CommandView::Xpending { key: a[1], group: a[2], range: None })
    } else {
        let at: int = if spells(a[3], "IDLE"@) { 5 } else { 3 };
        if a.len() < at + 3 {
            Err("syntax error"@)
        } else {
            match first_id_spec(a[at]) {
                Err(e) => Err(e),
                Ok(start) => {
                    match last_id_spec(a[at + 1]) {
                        Err(e) => Err(e),
                        Ok(end) => {
                            match usize_of(a[at + 2]) {
                                None => Err("value is not an integer or out of range"@),
                                Some(count) => {
                                    if a.len() > at + 3 {
                                        Ok(CommandView::Xpending {
                                            key: a[1],
                                            group: a[2],
                                            range: Some((start, end, count, Some(a[at + 3]))),
                                        })
                                    } else {
                                        Ok(CommandView::Xpending {
                                            key: a[1],
                                            group: a[2],
                                            range: Some((start, end, count, None)),
                                        })
                                    }
                                },
                            }
                        },
                    }
                },
            }
        }
    }
}

pub(crate) fn build_xpending(args: &Vec<Bytes>) -> (r: Result<Command, String>)
    requires
        args.len() > 0,
    ensures
        built(r) == xpending_spec(contents(args@)),
{
    if args.len() < 3 {
        return Err("wrong number of arguments for 'xpending' command".to_owned());
    }
    if args.len() == 3 {
        Ok(Command::Xpending { key: args[1].clone(), group: args[2].clone(), range: None })
    } else {
        let at: usize = if spells_word(args[3].as_ref(), "IDLE") { 5 } else { 3 };
        if args.len() < at + 3 {
            return Err("syntax error".to_owned());
        }
        let start: StreamId = match first_id(args[at].as_ref()) {
            Ok(v) => v,
            Err(e) => return Err(e),
        };
        let end: StreamId = match last_id(args[at + 1].as_ref()) {
            Ok(v) => v,
            Err(e) => return Err(e),
        };
        let count: usize = match read_usize(args[at + 2].as_ref()) {
            Some(v) => v,
            None => return Err("value is not an integer or out of range".to_owned()),
        };
        if args.len() > at + 3 {
            Ok(Command::Xpending {
                key: args[1].clone(),
                group: args[2].clone(),
                range: Some((start, end, count, Some(args[at + 3].clone()))),
            })
        } else {
            Ok(Command::Xpending {
                key: args[1].clone(),
                group: args[2].clone(),
                range: Some((start, end, count, None)),
            })
        }
    }
}

/// The commands on streams: the command that `name` stands for among them, if it is one.
pub open spec fn streams_command_spec(
    name: Seq<char>,
    a: Seq<Seq<u8>>,
) -> Option<Result<CommandView, Seq<char>>> {
    if name == "XADD"@ {
        Some(xadd_spec(a))
    } else if name == "XLEN"@ {
        Some(xlen_spec(a))
    } else if name == "XRANGE"@ {
        Some(xrange_spec(a))
    } else if name == "XREVRANGE"@ {
        Some(xrevrange_spec(a))
    } else if name == "XREAD"@ {
        Some(xread_spec(a))
    } else if name == "XREADGROUP"@ {
        Some(xreadgroup_spec(a))
    } else if name == "XDEL"@ {
        Some(xdel_spec(a))
    } else if name == "XACK"@ {
        Some(xack_spec(a))
    } else if name == "XTRIM"@ {
        Some(xtrim_spec(a))
    } else if name == "XGROUP"@ {
        Some(xgroup_spec(a))
    } else if name == "XPENDING"@ {
        Some(xpending_spec(a))
    } else {
        None
    }
}

pub(crate) fn streams_command(name: &str, args: &Vec<Bytes>) -> (r: Option<Result<Command, String>>)
    requires
        args.len() > 0,
    ensures
        built_opt(r) == streams_command_spec(name@, contents(args@)),
{
    if same_text(name, "XADD") {
        Some(build_xadd(args))
    } else if same_text(name, "XLEN") {
        Some(build_xlen(args))
    } else if same_text(name, "XRANGE") {
        Some(build_xrange(args))
    } else if same_text(name, "XREVRANGE") {
        Some(build_xrevrange(args))
    } else if same_text(name, "XREAD") {
        Some(build_xread(args))
    } else if same_text(name, "XREADGROUP") {
        Some(build_xreadgroup(args))
    } else if same_text(name, "XDEL") {
        Some(build_xdel(args))
    } else if same_text(name, "XACK") {
        Some(build_xack(args))
    } else if same_text(name, "XTRIM") {
        Some(build_xtrim(args))
    } else if same_text(name, "XGROUP") {
        Some(build_xgroup(args))
    } else if same_text(name, "XPENDING") {
        Some(build_xpending(args))
    } else {
        None
    }
}

} // verus!
