//! Bitmaps and cardinality estimates.
use bytes::Bytes;
use vstd::prelude::*;

use crate::command::{Command, CommandView, built, built_opt};
use crate::lists::{contents, keys_from};
use crate::numbers::{i64_of, read_i64, read_u64, read_u8, read_usize, u64_of, u8_of, usize_of};
use crate::text::{same_text, upper, upper_word};

verus! {

/// What `SETBIT` builds from its arguments.
pub open spec fn setbit_spec(a: Seq<Seq<u8>>) -> Result<CommandView, Seq<char>> {
    if a.len() != 4 {
        Err("wrong number of arguments for 'setbit' command"@)
    } else {
        match u64_of(a[2]) {
            None => Err("bit offset is not an integer or out of range"@),
            Some(offset) => {
                if offset >= 4294967296 {
                    Err("bit offset is not an integer or out of range"@)
                } else {
                    match u8_of(a[3]) {
                        None => Err("bit is not an integer or out of range"@),
                        Some(value) => {
                            if value > 1 {
                                Err("bit is not an integer or out of range"@)
                            } else {
                                Ok(CommandView::Setbit {
                                    key: a[1],
                                    offset: offset as usize,
                                    value,
                                })
                            }
                        },
                    }
                }
            },
        }
    }
}

pub(crate) fn build_setbit(args: &Vec<Bytes>) -> (r: Result<Command, String>)
    requires
        args.len() > 0,
    ensures
        built(r) == setbit_spec(contents(args@)),
{
    if args.len() != 4 {
        return Err("wrong number of arguments for 'setbit' command".to_owned());
    }
    let offset: u64 = match read_u64(args[2].as_ref()) {
        Some(v) => v,
        None => return Err("bit offset is not an integer or out of range".to_owned()),
    };
    if offset >= 4294967296 {
        return Err("bit offset is not an integer or out of range".to_owned());
    }
    let value: u8 = match read_u8(args[3].as_ref()) {
        Some(v) => v,
        None => return Err("bit is not an integer or out of range".to_owned()),
    };
    if value > 1 {
        return Err("bit is not an integer or out of range".to_owned());
    }
    Ok(Command::Setbit { key: args[1].clone(), offset: offset as usize, value })
}

/// What `GETBIT` builds from its arguments.
pub open spec fn getbit_spec(a: Seq<Seq<u8>>) -> Result<CommandView, Seq<char>> {
    if a.len() != 3 {
        Err("wrong number of arguments for 'getbit' command"@)
    } else {
        match usize_of(a[2]) {
            None => Err("bit offset is not an integer or out of range"@),
            Some(offset) => {
                Ok(CommandView::Getbit { key: a[1], offset })
            },
        }
    }
}

pub(crate) fn build_getbit(args: &Vec<Bytes>) -> (r: Result<Command, String>)
    requires
        args.len() > 0,
    ensures
        built(r) == getbit_spec(contents(args@)),
{
    if args.len() != 3 {
        return Err("wrong number of arguments for 'getbit' command".to_owned());
    }
    let offset: usize = match read_usize(args[2].as_ref()) {
        Some(v) => v,
        None => return Err("bit offset is not an integer or out of range".to_owned()),
    };
    Ok(Command::Getbit { key: args[1].clone(), offset })
}

/// What `BITCOUNT` builds from its arguments.
pub open spec fn bitcount_spec(a: Seq<Seq<u8>>) -> Result<CommandView, Seq<char>> {
    if a.len() != 2 && a.len() != 4 && a.len() != 5 {
        Err("wrong number of arguments for 'bitcount' command"@)
    } else if a.len() >= 4 {
        match i64_of(a[2]) {
            None => Err("value is not an integer or out of range"@),
            Some(start) => {
                match i64_of(a[3]) {
                    None => Err("value is not an integer or out of range"@),
                    Some(end) => {
                        Ok(CommandView::Bitcount {
                            key: a[1],
                            start: Some(start),
                            end: Some(end),
                        })
                    },
                }
            },
        }
    } else {
        Ok(CommandView::Bitcount { key: a[1], start: None, end: None })
    }
}

pub(crate) fn build_bitcount(args: &Vec<Bytes>) -> (r: Result<Command, String>)
    requires
        args.len() > 0,
    ensures
        built(r) == bitcount_spec(contents(args@)),
{
    if args.len() != 2 && args.len() != 4 && args.len() != 5 {
        return Err("wrong number of arguments for 'bitcount' command".to_owned());
    }
    if args.len() >= 4 {
        let start: i64 = match read_i64(args[2].as_ref()) {
            Some(v) => v,
            None => return Err("value is not an integer or out of range".to_owned()),
        };
        let end: i64 = match read_i64(args[3].as_ref()) {
            Some(v) => v,
            None => return Err("value is not an integer or out of range".to_owned()),
        };
        Ok(Command::Bitcount { key: args[1].clone(), start: Some(start), end: Some(end) })
    } else {
        Ok(Command::Bitcount { key: args[1].clone(), start: None, end: None })
    }
}

/// What `BITPOS` builds from its arguments.
pub open spec fn bitpos_spec(a: Seq<Seq<u8>>) -> Result<CommandView, Seq<char>> {
    if a.len() < 3 || a.len() > 5 {
        Err("wrong number of arguments for 'bitpos' command"@)
    } else {
        match u8_of(a[2]) {
            None => Err("The bit argument must be 1 or 0."@),
            Some(bit) => {
                if bit > 1 {
                    Err("The bit argument must be 1 or 0."@)
                } else if a.len() >= 4 {
                    match i64_of(a[3]) {
                        None => Err("value is not an integer or out of range"@),
                        Some(start) => {
                            if a.len() == 5 {
                                match i64_of(a[4]) {
                                    None => Err("value is not an integer or out of range"@),
                                    Some(end) => {
                                        Ok(CommandView::Bitpos {
                                            key: a[1],
                                            bit,
                                            start: Some(start),
                                            end: Some(end),
                                        })
                                    },
                                }
                            } else {
                                Ok(CommandView::Bitpos {
                                    key: a[1],
                                    bit,
                                    start: Some(start),
                                    end: None,
                                })
                            }
                        },
                    }
                } else {
                    Ok(CommandView::Bitpos { key: a[1], bit, start: None, end: None })
                }
            },
        }
    }
}

pub(crate) fn build_bitpos(args: &Vec<Bytes>) -> (r: Result<Command, String>)
    requires
        args.len() > 0,
    ensures
        built(r) == bitpos_spec(contents(args@)),
{
    if args.len() < 3 || args.len() > 5 {
        return Err("wrong number of arguments for 'bitpos' command".to_owned());
    }
    let bit: u8 = match read_u8(args[2].as_ref()) {
        Some(v) => v,
        None => return Err("The bit argument must be 1 or 0.".to_owned()),
    };
    if bit > 1 {
        return Err("The bit argument must be 1 or 0.".to_owned());
    }
    if args.len() >= 4 {
        let start: i64 = match read_i64(args[3].as_ref()) {
            Some(v) => v,
            None => return Err("value is not an integer or out of range".to_owned()),
        };
        if args.len() == 5 {
            let end: i64 = match read_i64(args[4].as_ref()) {
                Some(v) => v,
                None => return Err("value is not an integer or out of range".to_owned()),
            };
            Ok(Command::Bitpos { key: args[1].clone(), bit, start: Some(start), end: Some(end) })
        } else {
            Ok(Command::Bitpos { key: args[1].clone(), bit, start: Some(start), end: None })
        }
    } else {
        Ok(Command::Bitpos { key: args[1].clone(), bit, start: None, end: None })
    }
}

/// What `BITOP` builds from its arguments.
pub open spec fn bitop_spec(a: Seq<Seq<u8>>) -> Result<CommandView, Seq<char>> {
    if a.len() < 4 {
        Err("wrong number of arguments for 'bitop' command"@)
    } else {
        let op = upper_word(a[1]);
        if op == "NOT"@ && a.len() != 4 {
            Err("BITOP NOT takes only one source key"@)
        } else {
            Ok(CommandView::Bitop { op, destkey: a[2], srckeys: a.skip(3) })
        }
    }
}

pub(crate) fn build_bitop(args: &Vec<Bytes>) -> (r: Result<Command, String>)
    requires
        args.len() > 0,
    ensures
        built(r) == bitop_spec(contents(args@)),
{
    if args.len() < 4 {
        return Err("wrong number of arguments for 'bitop' command".to_owned());
    }
    let op: String = upper(&args[1]);
    if same_text(&op, "NOT") && args.len() != 4 {
        return Err("BITOP NOT takes only one source key".to_owned());
    }
    Ok(Command::Bitop { op, destkey: args[2].clone(), srckeys: keys_from(args, 3) })
}

/// What `PFADD` builds from its arguments.
pub open spec fn pfadd_spec(a: Seq<Seq<u8>>) -> Result<CommandView, Seq<char>> {
    if a.len() < 2 {
        Err("wrong number of arguments for 'pfadd' command"@)
    } else {
        Ok(CommandView::Pfadd { key: a[1], elements: a.skip(2) })
    }
}

pub(crate) fn build_pfadd(args: &Vec<Bytes>) -> (r: Result<Command, String>)
    requires
        args.len() > 0,
    ensures
        built(r) == pfadd_spec(contents(args@)),
{
    if args.len() < 2 {
        return Err("wrong number of arguments for 'pfadd' command".to_owned());
    }
    Ok(Command::Pfadd { key: args[1].clone(), elements: keys_from(args, 2) })
}

/// What `PFCOUNT` builds from its arguments.
pub open spec fn pfcount_spec(a: Seq<Seq<u8>>) -> Result<CommandView, Seq<char>> {
    if a.len() < 2 {
        Err("wrong number of arguments for 'pfcount' command"@)
    } else {
        Ok(CommandView::Pfcount { keys: a.skip(1) })
    }
}

pub(crate) fn build_pfcount(args: &Vec<Bytes>) -> (r: Result<Command, String>)
    requires
        args.len() > 0,
    ensures
        built(r) == pfcount_spec(contents(args@)),
{
    if args.len() < 2 {
        return Err("wrong number of arguments for 'pfcount' command".to_owned());
    }
    Ok(Command::Pfcount { keys: keys_from(args, 1) })
}

/// What `PFMERGE` builds from its arguments.
pub open spec fn pfmerge_spec(a: Seq<Seq<u8>>) -> Result<CommandView, Seq<char>> {
    if a.len() < 2 {
        Err("wrong number of arguments for 'pfmerge' command"@)
    } else {
        Ok(CommandView::Pfmerge { destkey: a[1], srckeys: a.skip(2) })
    }
}

pub(crate) fn build_pfmerge(args: &Vec<Bytes>) -> (r: Result<Command, String>)
    requires
        args.len() > 0,
    ensures
        built(r) == pfmerge_spec(contents(args@)),
{
    if args.len() < 2 {
        return Err("wrong number of arguments for 'pfmerge' command".to_owned());
    }
    Ok(Command::Pfmerge { destkey: args[1].clone(), srckeys: keys_from(args, 2) })
}

/// The commands on bitmaps and cardinality estimates: the command that `name` stands for among them, if it is one.
pub open spec fn bits_command_spec(
    name: Seq<char>,
    a: Seq<Seq<u8>>,
) -> Option<Result<CommandView, Seq<char>>> {
    if name == "SETBIT"@ {
        Some(setbit_spec(a))
    } else if name == "GETBIT"@ {
        Some(getbit_spec(a))
    } else if name == "BITCOUNT"@ {
        Some(bitcount_spec(a))
    } else if name == "BITPOS"@ {
        Some(bitpos_spec(a))
    } else if name == "BITOP"@ {
        Some(bitop_spec(a))
    } else if name == "PFADD"@ {
        Some(pfadd_spec(a))
    } else if name == "PFCOUNT"@ {
        Some(pfcount_spec(a))
    } else if name == "PFMERGE"@ {
        Some(pfmerge_spec(a))
    } else {
        None
    }
}

pub(crate) fn bits_command(name: &str, args: &Vec<Bytes>) -> (r: Option<Result<Command, String>>)
    requires
        args.len() > 0,
    ensures
        built_opt(r) == bits_command_spec(name@, contents(args@)),
{
    if same_text(name, "SETBIT") {
        Some(build_setbit(args))
    } else if same_text(name, "GETBIT") {
        Some(build_getbit(args))
    } else if same_text(name, "BITCOUNT") {
        Some(build_bitcount(args))
    } else if same_text(name, "BITPOS") {
        Some(build_bitpos(args))
    } else if same_text(name, "BITOP") {
        Some(build_bitop(args))
    } else if same_text(name, "PFADD") {
        Some(build_pfadd(args))
    } else if same_text(name, "PFCOUNT") {
        Some(build_pfcount(args))
    } else if same_text(name, "PFMERGE") {
        Some(build_pfmerge(args))
    } else {
        None
    }
}

} // verus!
