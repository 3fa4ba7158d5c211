//! Sets.
use bytes::Bytes;
use vstd::prelude::*;

use crate::command::{Command, CommandView, built, built_opt};
use crate::lists::{content_opt, contents, key_list_from, keys_between, keys_from};
use crate::numbers::{i64_of, read_i64, read_usize, usize_of};
use crate::text::{same_text, upper, upper_word};
use super::walks::{read_walk_options, walk_options};

verus! {

/// What `SADD` builds from its arguments.
pub open spec fn sadd_spec(a: Seq<Seq<u8>>) -> Result<CommandView, Seq<char>> {
    if a.len() < 3 {
        Err("wrong number of arguments for 'sadd' command"@)
    } else {
        Ok(CommandView::Sadd { key: a[1], members: a.skip(2) })
    }
}

pub(crate) fn build_sadd(args: &Vec<Bytes>) -> (r: Result<Command, String>)
    requires
        args.len() > 0,
    ensures
        built(r) == sadd_spec(contents(args@)),
{
    if args.len() < 3 {
        return Err("wrong number of arguments for 'sadd' command".to_owned());
    }
    Ok(Command::Sadd { key: args[1].clone(), members: key_list_from(args, 2) })
}

/// What `SREM` builds from its arguments.
pub open spec fn srem_spec(a: Seq<Seq<u8>>) -> Result<CommandView, Seq<char>> {
    if a.len() < 3 {
        Err("wrong number of arguments for 'srem' command"@)
    } else {
        Ok(CommandView::Srem { key: a[1], members: a.skip(2) })
    }
}

pub(crate) fn build_srem(args: &Vec<Bytes>) -> (r: Result<Command, String>)
    requires
        args.len() > 0,
    ensures
        built(r) == srem_spec(contents(args@)),
{
    if args.len() < 3 {
        return Err("wrong number of arguments for 'srem' command".to_owned());
    }
    Ok(Command::Srem { key: args[1].clone(), members: keys_from(args, 2) })
}

/// What `SMEMBERS` builds from its arguments.
pub open spec fn smembers_spec(a: Seq<Seq<u8>>) -> Result<CommandView, Seq<char>> {
    if a.len() != 2 {
        Err("wrong number of arguments for 'smembers' command"@)
    } else {
        Ok(CommandView::Smembers(a[1]))
    }
}

pub(crate) fn build_smembers(args: &Vec<Bytes>) -> (r: Result<Command, String>)
    requires
        args.len() > 0,
    ensures
        built(r) == smembers_spec(contents(args@)),
{
    if args.len() != 2 {
        return Err("wrong number of arguments for 'smembers' command".to_owned());
    }
    Ok(Command::Smembers(args[1].clone()))
}

/// What `SISMEMBER` builds from its arguments.
pub open spec fn sismember_spec(a: Seq<Seq<u8>>) -> Result<CommandView, Seq<char>> {
    if a.len() != 3 {
        Err("wrong number of arguments for 'sismember' command"@)
    } else {
        Ok(CommandView::Sismember { key: a[1], member: a[2] })
    }
}

pub(crate) fn build_sismember(args: &Vec<Bytes>) -> (r: Result<Command, String>)
    requires
        args.len() > 0,
    ensures
        built(r) == sismember_spec(contents(args@)),
{
    if args.len() != 3 {
        return Err("wrong number of arguments for 'sismember' command".to_owned());
    }
    Ok(Command::Sismember { key: args[1].clone(), member: args[2].clone() })
}

/// What `SCARD` builds from its arguments.
pub open spec fn scard_spec(a: Seq<Seq<u8>>) -> Result<CommandView, Seq<char>> {
    if a.len() != 2 {
        Err("wrong number of arguments for 'scard' command"@)
    } else {
        Ok(CommandView::Scard(a[1]))
    }
}

pub(crate) fn build_scard(args: &Vec<Bytes>) -> (r: Result<Command, String>)
    requires
        args.len() > 0,
    ensures
        built(r) == scard_spec(contents(args@)),
{
    if args.len() != 2 {
        return Err("wrong number of arguments for 'scard' command".to_owned());
    }
    Ok(Command::Scard(args[1].clone()))
}

/// What `SPOP` builds from its arguments.
pub open spec fn spop_spec(a: Seq<Seq<u8>>) -> Result<CommandView, Seq<char>> {
    if a.len() < 2 {
        Err("wrong number of arguments for 'spop' command"@)
    } else if a.len() > 2 {
        match usize_of(a[2]) {
            None => Err("value is not an integer or out of range"@),
            Some(count) => {
                Ok(CommandView::Spop { key: a[1], count: Some(count) })
            },
        }
    } else {
        Ok(CommandView::Spop { key: a[1], count: None })
    }
}

pub(crate) fn build_spop(args: &Vec<Bytes>) -> (r: Result<Command, String>)
    requires
        args.len() > 0,
    ensures
        built(r) == spop_spec(contents(args@)),
{
    if args.len() < 2 {
        return Err("wrong number of arguments for 'spop' command".to_owned());
    }
    if args.len() > 2 {
        let count: usize = match read_usize(args[2].as_ref()) {
            Some(v) => v,
            None => return Err("value is not an integer or out of range".to_owned()),
        };
        Ok(Command::Spop { key: args[1].clone(), count: Some(count) })
    } else {
        Ok(Command::Spop { key: args[1].clone(), count: None })
    }
}

/// What `SINTER` builds from its arguments.
pub open spec fn sinter_spec(a: Seq<Seq<u8>>) -> Result<CommandView, Seq<char>> {
    if a.len() < 2 {
        Err("wrong number of arguments for 'sinter' command"@)
    } else {
        Ok(CommandView::Sinter(a.skip(1)))
    }
}

pub(crate) fn build_sinter(args: &Vec<Bytes>) -> (r: Result<Command, String>)
    requires
        args.len() > 0,
    ensures
        built(r) == sinter_spec(contents(args@)),
{
    if args.len() < 2 {
        return Err("wrong number of arguments for 'sinter' command".to_owned());
    }
    Ok(Command::Sinter(keys_from(args, 1)))
}

/// What `SINTERSTORE` builds from its arguments.
pub open spec fn sinterstore_spec(a: Seq<Seq<u8>>) -> Result<CommandView, Seq<char>> {
    if a.len() < 3 {
        Err("wrong number of arguments for 'sinterstore' command"@)
    } else {
        Ok(CommandView::Sinterstore { destination: a[1], keys: a.skip(2) })
    }
}

pub(crate) fn build_sinterstore(args: &Vec<Bytes>) -> (r: Result<Command, String>)
    requires
        args.len() > 0,
    ensures
        built(r) == sinterstore_spec(contents(args@)),
{
    if args.len() < 3 {
        return Err("wrong number of arguments for 'sinterstore' command".to_owned());
    }
    Ok(Command::Sinterstore { destination: args[1].clone(), keys: keys_from(args, 2) })
}

/// What `SUNION` builds from its arguments.
pub open spec fn sunion_spec(a: Seq<Seq<u8>>) -> Result<CommandView, Seq<char>> {
    if a.len() < 2 {
        Err("wrong number of arguments for 'sunion' command"@)
    } else {
        Ok(CommandView::Sunion(a.skip(1)))
    }
}

pub(crate) fn build_sunion(args: &Vec<Bytes>) -> (r: Result<Command, String>)
    requires
        args.len() > 0,
    ensures
        built(r) == sunion_spec(contents(args@)),
{
    if args.len() < 2 {
        return Err("wrong number of arguments for 'sunion' command".to_owned());
    }
    Ok(Command::Sunion(keys_from(args, 1)))
}

/// What `SUNIONSTORE` builds from its arguments.
pub open spec fn sunionstore_spec(a: Seq<Seq<u8>>) -> Result<CommandView, Seq<char>> {
    if a.len() < 3 {
        Err("wrong number of arguments for 'sunionstore' command"@)
    } else {
        Ok(CommandView::Sunionstore { destination: a[1], keys: a.skip(2) })
    }
}

pub(crate) fn build_sunionstore(args: &Vec<Bytes>) -> (r: Result<Command, String>)
    requires
        args.len() > 0,
    ensures
        built(r) == sunionstore_spec(contents(args@)),
{
    if args.len() < 3 {
        return Err("wrong number of arguments for 'sunionstore' command".to_owned());
    }
    Ok(Command::Sunionstore { destination: args[1].clone(), keys: keys_from(args, 2) })
}

/// What `SDIFF` builds from its arguments.
pub open spec fn sdiff_spec(a: Seq<Seq<u8>>) -> Result<CommandView, Seq<char>> {
    if a.len() < 2 {
        Err("wrong number of arguments for 'sdiff' command"@)
    } else {
        Ok(CommandView::Sdiff(a.skip(1)))
    }
}

pub(crate) fn build_sdiff(args: &Vec<Bytes>) -> (r: Result<Command, String>)
    requires
        args.len() > 0,
    ensures
        built(r) == sdiff_spec(contents(args@)),
{
    if args.len() < 2 {
        return Err("wrong number of arguments for 'sdiff' command".to_owned());
    }
    Ok(Command::Sdiff(keys_from(args, 1)))
}

/// What `SDIFFSTORE` builds from its arguments.
pub open spec fn sdiffstore_spec(a: Seq<Seq<u8>>) -> Result<CommandView, Seq<char>> {
    if a.len() < 3 {
        Err("wrong number of arguments for 'sdiffstore' command"@)
    } else {
        Ok(CommandView::Sdiffstore { destination: a[1], keys: a.skip(2) })
    }
}

pub(crate) fn build_sdiffstore(args: &Vec<Bytes>) -> (r: Result<Command, String>)
    requires
        args.len() > 0,
    ensures
        built(r) == sdiffstore_spec(contents(args@)),
{
    if args.len() < 3 {
        return Err("wrong number of arguments for 'sdiffstore' command".to_owned());
    }
    Ok(Command::Sdiffstore { destination: args[1].clone(), keys: keys_from(args, 2) })
}

/// What the options of a count of members from `i` on make of those before them: the limit.
pub open spec fn card_options(
    a: Seq<Seq<u8>>,
    approx: bool,
    limit: usize,
    i: int,
) -> Result<usize, Seq<char>>
    decreases a.len() - i,
{
    if i >= a.len() {
        Ok(limit)
    } else {
        let opt = upper_word(a[i]);
        if opt == "LIMIT"@ {
            if a.len() - i <= 1 {
                Err("syntax error"@)
            } else {
                match i64_of(a[i + 1]) {
                    None => Err("LIMIT can't be negative"@),
                    Some(lim) => {
                        if lim < 0 {
                            Err("LIMIT can't be negative"@)
                        } else {
                            let limit: usize = lim as usize;
                            let i: int = i + 2;
                            card_options(a, approx, limit, i)
                        }
                    },
                }
            }
        } else if approx && opt == "APPROX"@ {
            let i: int = i + 1;
            card_options(a, approx, limit, i)
        } else {
            Err("syntax error"@)
        }
    }
}

/// Reads the limit of a count of members from the options from `from` on.
#[verifier::loop_isolation(false)]
pub(crate) fn read_card_options(
    args: &Vec<Bytes>,
    approx: bool,
    from: usize,
) -> (r: Result<usize, String>)
    requires
        from <= args.len(),
    ensures
        match card_options(contents(args@), approx, 0, from as int) {
            Ok(x) => r matches Ok(y) && x == y,
            Err(e) => r matches Err(y) && y@ == e,
        },
{
    let mut limit: usize = 0;
    let mut i: usize = from;
    let ghost goal = card_options(
        contents(args@),
        approx,
        limit,
        i as int,
    );
    while i < args.len()
        invariant
            i <= args.len(),
            card_options(contents(args@), approx, limit, i as int) == goal,
        decreases args.len() - i,
    {
        let opt: String = upper(&args[i]);
        if same_text(&opt, "LIMIT") {
            if args.len() - i <= 1 {
                return Err("syntax error".to_owned());
            }
            let lim: i64 = match read_i64(args[i + 1].as_ref()) {
                Some(v) => v,
                None => return Err("LIMIT can't be negative".to_owned()),
            };
            if lim < 0 {
                return Err("LIMIT can't be negative".to_owned());
            }
            limit = lim as usize;
            i = i + 2;
        } else if approx && same_text(&opt, "APPROX") {
            i = i + 1;
        } else {
            return Err("syntax error".to_owned());
        }
    }
    Ok(limit)
}

/// What `SINTERCARD` builds from its arguments.
pub open spec fn sintercard_spec(a: Seq<Seq<u8>>) -> Result<CommandView, Seq<char>> {
    if a.len() < 3 {
        Err("wrong number of arguments for 'sintercard' command"@)
    } else {
        match i64_of(a[1]) {
            None => Err("numkeys must be greater than 0"@),
            Some(wanted) => {
                if wanted <= 0 {
                    Err("numkeys must be greater than 0"@)
                } else {
                    let numkeys: usize = wanted as usize;
                    if numkeys >= a.len() || a.len() - numkeys < 2 {
                        Err("Number of keys can't be greater than number of args"@)
                    } else {
                        let at: int = numkeys + 2;
                        let approx = false;
                        let limit: usize = 0;
                        let i: int = at;
                        match card_options(a, approx, limit, i) {
                            Err(e) => Err(e),
                            Ok(limit) => {
                                Ok(CommandView::Sintercard { keys: a.subrange(2, at), limit })
                            },
                        }
                    }
                }
            },
        }
    }
}

pub(crate) fn build_sintercard(args: &Vec<Bytes>) -> (r: Result<Command, String>)
    requires
        args.len() > 0,
    ensures
        built(r) == sintercard_spec(contents(args@)),
{
    if args.len() < 3 {
        return Err("wrong number of arguments for 'sintercard' command".to_owned());
    }
    let wanted: i64 = match read_i64(args[1].as_ref()) {
        Some(v) => v,
        None => return Err("numkeys must be greater than 0".to_owned()),
    };
    if wanted <= 0 {
        return Err("numkeys must be greater than 0".to_owned());
    }
    let numkeys: usize = wanted as usize;
    if numkeys >= args.len() || args.len() - numkeys < 2 {
        return Err("Number of keys can't be greater than number of args".to_owned());
    }
    let at: usize = numkeys + 2;
    let limit: usize = match read_card_options(args, false, at) {
        Ok(v) => v,
        Err(e) => return Err(e),
    };
    Ok(Command::Sintercard { keys: keys_between(args, 2, at), limit })
}

/// What `SUNIONCARD` builds from its arguments.
pub open spec fn sunioncard_spec(a: Seq<Seq<u8>>) -> Result<CommandView, Seq<char>> {
    if a.len() < 3 {
        Err("wrong number of arguments for 'sunioncard' command"@)
    } else {
        match i64_of(a[1]) {
            None => Err("numkeys must be greater than 0"@),
            Some(wanted) => {
                if wanted <= 0 {
                    Err("numkeys must be greater than 0"@)
                } else {
                    let numkeys: usize = wanted as usize;
                    if numkeys >= a.len() || a.len() - numkeys < 2 {
                        Err("Number of keys can't be greater than number of args"@)
                    } else {
                        let at: int = numkeys + 2;
                        let approx = true;
                        let limit: usize = 0;
                        let i: int = at;
                        match card_options(a, approx, limit, i) {
                            Err(e) => Err(e),
                            Ok(limit) => {
                                Ok(CommandView::Sunioncard { keys: a.subrange(2, at), limit })
                            },
                        }
                    }
                }
            },
        }
    }
}

pub(crate) fn build_sunioncard(args: &Vec<Bytes>) -> (r: Result<Command, String>)
    requires
        args.len() > 0,
    ensures
        built(r) == sunioncard_spec(contents(args@)),
{
    if args.len() < 3 {
        return Err("wrong number of arguments for 'sunioncard' command".to_owned());
    }
    let wanted: i64 = match read_i64(args[1].as_ref()) {
        Some(v) => v,
        None => return Err("numkeys must be greater than 0".to_owned()),
    };
    if wanted <= 0 {
        return Err("numkeys must be greater than 0".to_owned());
    }
    let numkeys: usize = wanted as usize;
    if numkeys >= args.len() || args.len() - numkeys < 2 {
        return Err("Number of keys can't be greater than number of args".to_owned());
    }
    let at: usize = numkeys + 2;
    let limit: usize = match read_card_options(args, true, at) {
        Ok(v) => v,
        Err(e) => return Err(e),
    };
    Ok(Command::Sunioncard { keys: keys_between(args, 2, at), limit })
}

/// What `SDIFFCARD` builds from its arguments.
pub open spec fn sdiffcard_spec(a: Seq<Seq<u8>>) -> Result<CommandView, Seq<char>> {
    if a.len() < 3 {
        Err("wrong number of arguments for 'sdiffcard' command"@)
    } else {
        match i64_of(a[1]) {
            None => Err("numkeys must be greater than 0"@),
            Some(wanted) => {
                if wanted <= 0 {
                    Err("numkeys must be greater than 0"@)
                } else {
                    let numkeys: usize = wanted as usize;
                    if numkeys >= a.len() || a.len() - numkeys < 2 {
                        Err("Number of keys can't be greater than number of args"@)
                    } else {
                        let at: int = numkeys + 2;
                        let approx = false;
                        let limit: usize = 0;
                        let i: int = at;
                        match card_options(a, approx, limit, i) {
                            Err(e) => Err(e),
                            Ok(limit) => {
                                Ok(CommandView::Sdiffcard { keys: a.subrange(2, at), limit })
                            },
                        }
                    }
                }
            },
        }
    }
}

pub(crate) fn build_sdiffcard(args: &Vec<Bytes>) -> (r: Result<Command, String>)
    requires
        args.len() > 0,
    ensures
        built(r) == sdiffcard_spec(contents(args@)),
{
    if args.len() < 3 {
        return Err("wrong number of arguments for 'sdiffcard' command".to_owned());
    }
    let wanted: i64 = match read_i64(args[1].as_ref()) {
        Some(v) => v,
        None => return Err("numkeys must be greater than 0".to_owned()),
    };
    if wanted <= 0 {
        return Err("numkeys must be greater than 0".to_owned());
    }
    let numkeys: usize = wanted as usize;
    if numkeys >= args.len() || args.len() - numkeys < 2 {
        return Err("Number of keys can't be greater than number of args".to_owned());
    }
    let at: usize = numkeys + 2;
    let limit: usize = match read_card_options(args, false, at) {
        Ok(v) => v,
        Err(e) => return Err(e),
    };
    Ok(Command::Sdiffcard { keys: keys_between(args, 2, at), limit })
}

/// What `SMISMEMBER` builds from its arguments.
pub open spec fn smismember_spec(a: Seq<Seq<u8>>) -> Result<CommandView, Seq<char>> {
    if a.len() < 3 {
        Err("wrong number of arguments for 'smismember' command"@)
    } else {
        Ok(CommandView::Smismember { key: a[1], members: a.skip(2) })
    }
}

pub(crate) fn build_smismember(args: &Vec<Bytes>) -> (r: Result<Command, String>)
    requires
        args.len() > 0,
    ensures
        built(r) == smismember_spec(contents(args@)),
{
    if args.len() < 3 {
        return Err("wrong number of arguments for 'smismember' command".to_owned());
    }
    Ok(Command::Smismember { key: args[1].clone(), members: keys_from(args, 2) })
}

/// What `SRANDMEMBER` builds from its arguments.
pub open spec fn srandmember_spec(a: Seq<Seq<u8>>) -> Result<CommandView, Seq<char>> {
    if a.len() < 2 || a.len() > 3 {
        Err("wrong number of arguments for 'srandmember' command"@)
    } else if a.len() == 3 {
        match i64_of(a[2]) {
            None => Err("value is not an integer or out of range"@),
            Some(c) => {
                if c == i64::MIN {
                    Err("value is out of range"@)
                } else {
                    Ok(CommandView::Srandmember { key: a[1], count: Some(c) })
                }
            },
        }
    } else {
        Ok(CommandView::Srandmember { key: a[1], count: None })
    }
}

pub(crate) fn build_srandmember(args: &Vec<Bytes>) -> (r: Result<Command, String>)
    requires
        args.len() > 0,
    ensures
        built(r) == srandmember_spec(contents(args@)),
{
    if args.len() < 2 || args.len() > 3 {
        return Err("wrong number of arguments for 'srandmember' command".to_owned());
    }
    if args.len() == 3 {
        let c: i64 = match read_i64(args[2].as_ref()) {
            Some(v) => v,
            None => return Err("value is not an integer or out of range".to_owned()),
        };
        if c == i64::MIN {
            return Err("value is out of range".to_owned());
        }
        Ok(Command::Srandmember { key: args[1].clone(), count: Some(c) })
    } else {
        Ok(Command::Srandmember { key: args[1].clone(), count: None })
    }
}

/// What `SMOVE` builds from its arguments.
pub open spec fn smove_spec(a: Seq<Seq<u8>>) -> Result<CommandView, Seq<char>> {
    if a.len() != 4 {
        Err("wrong number of arguments for 'smove' command"@)
    } else {
        Ok(CommandView::Smove { source: a[1], destination: a[2], member: a[3] })
    }
}

pub(crate) fn build_smove(args: &Vec<Bytes>) -> (r: Result<Command, String>)
    requires
        args.len() > 0,
    ensures
        built(r) == smove_spec(contents(args@)),
{
    if args.len() != 4 {
        return Err("wrong number of arguments for 'smove' command".to_owned());
    }
    Ok(Command::Smove {
        source: args[1].clone(),
        destination: args[2].clone(),
        member: args[3].clone(),
    })
}

/// What `SSCAN` builds from its arguments.
pub open spec fn sscan_spec(a: Seq<Seq<u8>>) -> Result<CommandView, Seq<char>> {
    if a.len() < 3 {
        Err("wrong number of arguments for 'sscan' command"@)
    } else {
        match usize_of(a[2]) {
            None => Err("value is not an integer or out of range"@),
            Some(cursor) => {
                let pattern: Option<Seq<u8>> = None;
                let count: Option<usize> = None;
                let i: int = 3;
                match walk_options(a, pattern, count, i) {
                    Err(e) => Err(e),
                    Ok((pattern, count)) => {
                        Ok(CommandView::Sscan { key: a[1], cursor, pattern, count })
                    },
                }
            },
        }
    }
}

pub(crate) fn build_sscan(args: &Vec<Bytes>) -> (r: Result<Command, String>)
    requires
        args.len() > 0,
    ensures
        built(r) == sscan_spec(contents(args@)),
{
    if args.len() < 3 {
        return Err("wrong number of arguments for 'sscan' command".to_owned());
    }
    let cursor: usize = match read_usize(args[2].as_ref()) {
        Some(v) => v,
        None => return Err("value is not an integer or out of range".to_owned()),
    };
    let (pattern, count): (Option<Bytes>, Option<usize>) = match read_walk_options(args, 3) {
        Ok(v) => v,
        Err(e) => return Err(e),
    };
    Ok(Command::Sscan { key: args[1].clone(), cursor, pattern, count })
}

/// The commands on sets: the command that `name` stands for among them, if it is one.
pub open spec fn sets_command_spec(
    name: Seq<char>,
    a: Seq<Seq<u8>>,
) -> Option<Result<CommandView, Seq<char>>> {
    if name == "SADD"@ {
        Some(sadd_spec(a))
    } else if name == "SREM"@ {
        Some(srem_spec(a))
    } else if name == "SMEMBERS"@ {
        Some(smembers_spec(a))
    } else if name == "SISMEMBER"@ {
        Some(sismember_spec(a))
    } else if name == "SCARD"@ {
        Some(scard_spec(a))
    } else if name == "SPOP"@ {
        Some(spop_spec(a))
    } else if name == "SINTER"@ {
        Some(sinter_spec(a))
    } else if name == "SINTERSTORE"@ {
        Some(sinterstore_spec(a))
    } else if name == "SUNION"@ {
        Some(sunion_spec(a))
    } else if name == "SUNIONSTORE"@ {
        Some(sunionstore_spec(a))
    } else if name == "SDIFF"@ {
        Some(sdiff_spec(a))
    } else if name == "SDIFFSTORE"@ {
        Some(sdiffstore_spec(a))
    } else if name == "SINTERCARD"@ {
        Some(sintercard_spec(a))
    } else if name == "SUNIONCARD"@ {
        Some(sunioncard_spec(a))
    } else if name == "SDIFFCARD"@ {
        Some(sdiffcard_spec(a))
    } else if name == "SMISMEMBER"@ {
        Some(smismember_spec(a))
    } else if name == "SRANDMEMBER"@ {
        Some(srandmember_spec(a))
    } else if name == "SMOVE"@ {
        Some(smove_spec(a))
    } else if name == "SSCAN"@ {
        Some(sscan_spec(a))
    } else {
        None
    }
}

pub(crate) fn sets_command(name: &str, args: &Vec<Bytes>) -> (r: Option<Result<Command, String>>)
    requires
        args.len() > 0,
    ensures
        built_opt(r) == sets_command_spec(name@, contents(args@)),
{
    if same_text(name, "SADD") {
        Some(build_sadd(args))
    } else if same_text(name, "SREM") {
        Some(build_srem(args))
    } else if same_text(name, "SMEMBERS") {
        Some(build_smembers(args))
    } else if same_text(name, "SISMEMBER") {
        Some(build_sismember(args))
    } else if same_text(name, "SCARD") {
        Some(build_scard(args))
    } else if same_text(name, "SPOP") {
        Some(build_spop(args))
    } else if same_text(name, "SINTER") {
        Some(build_sinter(args))
    } else if same_text(name, "SINTERSTORE") {
        Some(build_sinterstore(args))
    } else if same_text(name, "SUNION") {
        Some(build_sunion(args))
    } else if same_text(name, "SUNIONSTORE") {
        Some(build_sunionstore(args))
    } else if same_text(name, "SDIFF") {
        Some(build_sdiff(args))
    } else if same_text(name, "SDIFFSTORE") {
        Some(build_sdiffstore(args))
    } else if same_text(name, "SINTERCARD") {
        Some(build_sintercard(args))
    } else if same_text(name, "SUNIONCARD") {
        Some(build_sunioncard(args))
    } else if same_text(name, "SDIFFCARD") {
        Some(build_sdiffcard(args))
    } else if same_text(name, "SMISMEMBER") {
        Some(build_smismember(args))
    } else if same_text(name, "SRANDMEMBER") {
        Some(build_srandmember(args))
    } else if same_text(name, "SMOVE") {
        Some(build_smove(args))
    } else if same_text(name, "SSCAN") {
        Some(build_sscan(args))
    } else {
        None
    }
}

} // verus!
