//! Administration, scripts and configuration.
use bytes::Bytes;
use vstd::prelude::*;
use vstd::utf8::*;

use crate::command::{
    Command, CommandView, DflyClusterSubcommand, DflyClusterSubcommandView, DflyMigrateSubcommand,
    DflyMigrateSubcommandView, MemorySubcommand, MemorySubcommandView, TierSubcommand,
    TierSubcommandView, built, built_opt,
};
use crate::lists::{contents, keys_between, keys_from, no_keys, push_key};
use crate::numbers::{i64_of, read_i64, read_u16, read_u64, read_usize, u16_of, u64_of, usize_of};
use crate::octets::{bytes_from_vec, content, slice_bytes};
use crate::text::{
    join2, join3, lossy, lossy_text, same_text, spells, spells_word, upper, upper_word,
};

verus! {

/// Byte strings with one space between each two of them.
pub open spec fn joined(a: Seq<Seq<u8>>) -> Seq<u8>
    decreases a.len(),
{
    if a.len() == 0 {
        Seq::empty()
    } else if a.len() == 1 {
        a[0]
    } else {
        joined(a.drop_last()) + seq![32u8] + a.last()
    }
}

/// A byte string without the quotation marks around it, if there are any of one kind.
pub open spec fn unquoted(v: Seq<u8>) -> Seq<u8> {
    if v.len() >= 2 && (v[0] == 34 || v[0] == 39) && v.last() == v[0] {
        v.subrange(1, v.len() - 1)
    } else {
        v
    }
}

/// The value that `CONFIG SET` sets: its arguments from the third on, joined and without quotes.
fn config_value(args: &Vec<Bytes>) -> (r: Bytes)
    requires
        args.len() >= 4,
    ensures
        content(r) == unquoted(joined(contents(args@).skip(3))),
{
    let ghost a = contents(args@).skip(3);
    let mut v: Vec<u8> = Vec::new();
    v.extend_from_slice(args[3].as_ref());
    assert(a.take(1).len() == 1 && a.take(1)[0] == a[0]);
    assert(v@ =~= joined(a.take(1)));
    let mut i: usize = 4;
    while i < args.len()
        invariant
            4 <= i <= args.len(),
            a == contents(args@).skip(3),
            v@ == joined(a.take(i - 3)),
        decreases args.len() - i,
    {
        v.push(32);
        v.extend_from_slice(args[i].as_ref());
        assert(a.take(i - 2).drop_last() =~= a.take(i - 3));
        assert(a.take(i - 2).last() == a[i - 3]);
        assert(v@ =~= joined(a.take(i - 2)));
        i = i + 1;
    }
    assert(a.take(i - 3) =~= a);
    let n: usize = v.len();
    let all: Bytes = bytes_from_vec(v);
    let s: &[u8] = all.as_ref();
    if n >= 2 && (s[0] == 34 || s[0] == 39) && s[n - 1] == s[0] {
        slice_bytes(&all, 1, n - 1)
    } else {
        all
    }
}

/// The list of one word.
fn one_key(word: &str) -> (r: Vec<Bytes>)
    ensures
        contents(r@) == seq![encode_utf8(word@)],
{
    let mut v: Vec<Bytes> = no_keys();
    push_key(&mut v, Bytes::copy_from_slice(word.as_bytes()));
    assert(contents(v@) =~= seq![encode_utf8(word@)]);
    v
}

/// What `SAVE` builds from its arguments.
pub open spec fn save_spec(a: Seq<Seq<u8>>) -> Result<CommandView, Seq<char>> {
    Ok(CommandView::Save)
}

pub(crate) fn build_save(args: &Vec<Bytes>) -> (r: Result<Command, String>)
    requires
        args.len() > 0,
    ensures
        built(r) == save_spec(contents(args@)),
{
    Ok(Command::Save)
}

/// What `BGSAVE` builds from its arguments.
pub open spec fn bgsave_spec(a: Seq<Seq<u8>>) -> Result<CommandView, Seq<char>> {
    Ok(CommandView::Bgsave)
}

pub(crate) fn build_bgsave(args: &Vec<Bytes>) -> (r: Result<Command, String>)
    requires
        args.len() > 0,
    ensures
        built(r) == bgsave_spec(contents(args@)),
{
    Ok(Command::Bgsave)
}

/// What `BGREWRITEAOF` builds from its arguments.
pub open spec fn bgrewriteaof_spec(a: Seq<Seq<u8>>) -> Result<CommandView, Seq<char>> {
    Ok(CommandView::Bgrewriteaof)
}

pub(crate) fn build_bgrewriteaof(args: &Vec<Bytes>) -> (r: Result<Command, String>)
    requires
        args.len() > 0,
    ensures
        built(r) == bgrewriteaof_spec(contents(args@)),
{
    Ok(Command::Bgrewriteaof)
}

/// What `LASTSAVE` builds from its arguments.
pub open spec fn lastsave_spec(a: Seq<Seq<u8>>) -> Result<CommandView, Seq<char>> {
    Ok(CommandView::Lastsave)
}

pub(crate) fn build_lastsave(args: &Vec<Bytes>) -> (r: Result<Command, String>)
    requires
        args.len() > 0,
    ensures
        built(r) == lastsave_spec(contents(args@)),
{
    Ok(Command::Lastsave)
}

/// What `ROLE` builds from its arguments.
pub open spec fn role_spec(a: Seq<Seq<u8>>) -> Result<CommandView, Seq<char>> {
    Ok(CommandView::Role)
}

pub(crate) fn build_role(args: &Vec<Bytes>) -> (r: Result<Command, String>)
    requires
        args.len() > 0,
    ensures
        built(r) == role_spec(contents(args@)),
{
    Ok(Command::Role)
}

/// What `QUIT` builds from its arguments.
pub open spec fn quit_spec(a: Seq<Seq<u8>>) -> Result<CommandView, Seq<char>> {
    Ok(CommandView::Quit)
}

pub(crate) fn build_quit(args: &Vec<Bytes>) -> (r: Result<Command, String>)
    requires
        args.len() > 0,
    ensures
        built(r) == quit_spec(contents(args@)),
{
    Ok(Command::Quit)
}

/// What `COMMAND` builds from its arguments.
pub open spec fn command_spec(a: Seq<Seq<u8>>) -> Result<CommandView, Seq<char>> {
    Ok(CommandView::CommandDocs)
}

pub(crate) fn build_command(args: &Vec<Bytes>) -> (r: Result<Command, String>)
    requires
        args.len() > 0,
    ensures
        built(r) == command_spec(contents(args@)),
{
    Ok(Command::CommandDocs)
}

/// What `STATS` builds from its arguments.
pub open spec fn memcached_stats_spec(a: Seq<Seq<u8>>) -> Result<CommandView, Seq<char>> {
    Ok(CommandView::MemcachedStats)
}

pub(crate) fn build_memcached_stats(args: &Vec<Bytes>) -> (r: Result<Command, String>)
    requires
        args.len() > 0,
    ensures
        built(r) == memcached_stats_spec(contents(args@)),
{
    Ok(Command::MemcachedStats)
}

/// What `VERSION` builds from its arguments.
pub open spec fn memcached_version_spec(a: Seq<Seq<u8>>) -> Result<CommandView, Seq<char>> {
    Ok(CommandView::MemcachedVersion)
}

pub(crate) fn build_memcached_version(args: &Vec<Bytes>) -> (r: Result<Command, String>)
    requires
        args.len() > 0,
    ensures
        built(r) == memcached_version_spec(contents(args@)),
{
    Ok(Command::MemcachedVersion)
}

/// What `SLOWLOG` builds from its arguments.
pub open spec fn slowlog_spec(a: Seq<Seq<u8>>) -> Result<CommandView, Seq<char>> {
    if a.len() > 1 {
        Ok(CommandView::Slowlog(a.skip(1)))
    } else {
        Ok(CommandView::Slowlog(seq![encode_utf8("GET"@)]))
    }
}

pub(crate) fn build_slowlog(args: &Vec<Bytes>) -> (r: Result<Command, String>)
    requires
        args.len() > 0,
    ensures
        built(r) == slowlog_spec(contents(args@)),
{
    if args.len() > 1 {
        Ok(Command::Slowlog(keys_from(args, 1)))
    } else {
        Ok(Command::Slowlog(one_key("GET")))
    }
}

/// What `DEBUG` builds from its arguments.
pub open spec fn debug_spec(a: Seq<Seq<u8>>) -> Result<CommandView, Seq<char>> {
    Ok(CommandView::Debug(a.skip(1)))
}

pub(crate) fn build_debug(args: &Vec<Bytes>) -> (r: Result<Command, String>)
    requires
        args.len() > 0,
    ensures
        built(r) == debug_spec(contents(args@)),
{
    Ok(Command::Debug(keys_from(args, 1)))
}

/// What `MEMORY` builds from its arguments.
pub open spec fn memory_spec(a: Seq<Seq<u8>>) -> Result<CommandView, Seq<char>> {
    if a.len() < 2 {
        Err("wrong number of arguments for 'memory' command"@)
    } else {
        let sub = upper_word(a[1]);
        if sub == "USAGE"@ {
            if a.len() < 3 {
                Err("wrong number of arguments for 'memory|usage' command"@)
            } else {
                Ok(CommandView::Memory(MemorySubcommandView::Usage { key: a[2] }))
            }
        } else if sub == "STATS"@ {
            Ok(CommandView::Memory(MemorySubcommandView::Stats))
        } else if sub == "PURGE"@ {
            Ok(CommandView::Memory(MemorySubcommandView::Purge))
        } else if sub == "DOCTOR"@ {
            Ok(CommandView::Memory(MemorySubcommandView::Doctor))
        } else if sub == "DEFRAG"@ {
            Ok(CommandView::Memory(MemorySubcommandView::Defrag))
        } else {
            Err("unknown subcommand '"@ + sub + "' for 'memory'"@)
        }
    }
}

pub(crate) fn build_memory(args: &Vec<Bytes>) -> (r: Result<Command, String>)
    requires
        args.len() > 0,
    ensures
        built(r) == memory_spec(contents(args@)),
{
    if args.len() < 2 {
        return Err("wrong number of arguments for 'memory' command".to_owned());
    }
    let sub: String = upper(&args[1]);
    if same_text(&sub, "USAGE") {
        if args.len() < 3 {
            return Err("wrong number of arguments for 'memory|usage' command".to_owned());
        }
        Ok(Command::Memory(MemorySubcommand::Usage { key: args[2].clone() }))
    } else if same_text(&sub, "STATS") {
        Ok(Command::Memory(MemorySubcommand::Stats))
    } else if same_text(&sub, "PURGE") {
        Ok(Command::Memory(MemorySubcommand::Purge))
    } else if same_text(&sub, "DOCTOR") {
        Ok(Command::Memory(MemorySubcommand::Doctor))
    } else if same_text(&sub, "DEFRAG") {
        Ok(Command::Memory(MemorySubcommand::Defrag))
    } else {
        Err(join3("unknown subcommand '", sub.as_str(), "' for 'memory'"))
    }
}

/// What `DEFRAG` / `ACTIVE-DEFRAG` builds from its arguments.
pub open spec fn defrag_spec(a: Seq<Seq<u8>>) -> Result<CommandView, Seq<char>> {
    Ok(CommandView::Memory(MemorySubcommandView::Defrag))
}

pub(crate) fn build_defrag(args: &Vec<Bytes>) -> (r: Result<Command, String>)
    requires
        args.len() > 0,
    ensures
        built(r) == defrag_spec(contents(args@)),
{
    Ok(Command::Memory(MemorySubcommand::Defrag))
}

/// What `INFO` builds from its arguments.
pub open spec fn info_spec(a: Seq<Seq<u8>>) -> Result<CommandView, Seq<char>> {
    if a.len() > 1 {
        Ok(CommandView::Info(Some(a[1])))
    } else {
        Ok(CommandView::Info(None))
    }
}

pub(crate) fn build_info(args: &Vec<Bytes>) -> (r: Result<Command, String>)
    requires
        args.len() > 0,
    ensures
        built(r) == info_spec(contents(args@)),
{
    if args.len() > 1 {
        Ok(Command::Info(Some(args[1].clone())))
    } else {
        Ok(Command::Info(None))
    }
}

/// What `REPLICAOF` / `SLAVEOF` builds from its arguments.
pub open spec fn replicaof_spec(a: Seq<Seq<u8>>) -> Result<CommandView, Seq<char>> {
    if a.len() != 3 {
        Err("wrong number of arguments for 'replicaof' command"@)
    } else {
        Ok(CommandView::Replicaof { host: a[1], port: a[2] })
    }
}

pub(crate) fn build_replicaof(args: &Vec<Bytes>) -> (r: Result<Command, String>)
    requires
        args.len() > 0,
    ensures
        built(r) == replicaof_spec(contents(args@)),
{
    if args.len() != 3 {
        return Err("wrong number of arguments for 'replicaof' command".to_owned());
    }
    Ok(Command::Replicaof { host: args[1].clone(), port: args[2].clone() })
}

/// What `PSYNC` builds from its arguments.
pub open spec fn psync_spec(a: Seq<Seq<u8>>) -> Result<CommandView, Seq<char>> {
    if a.len() != 3 {
        Err("wrong number of arguments for 'psync' command"@)
    } else {
        match i64_of(a[2]) {
            None => Err("ERR value is not an integer or out of range"@),
            Some(offset) => {
                Ok(CommandView::Psync { replid: a[1], offset })
            },
        }
    }
}

pub(crate) fn build_psync(args: &Vec<Bytes>) -> (r: Result<Command, String>)
    requires
        args.len() > 0,
    ensures
        built(r) == psync_spec(contents(args@)),
{
    if args.len() != 3 {
        return Err("wrong number of arguments for 'psync' command".to_owned());
    }
    let offset: i64 = match read_i64(args[2].as_ref()) {
        Some(v) => v,
        None => return Err("ERR value is not an integer or out of range".to_owned()),
    };
    Ok(Command::Psync { replid: args[1].clone(), offset })
}

/// What `REPLCONF` builds from its arguments.
pub open spec fn replconf_spec(a: Seq<Seq<u8>>) -> Result<CommandView, Seq<char>> {
    if a.len() < 2 {
        Err("wrong number of arguments for 'replconf' command"@)
    } else {
        Ok(CommandView::Replconf(a.skip(1)))
    }
}

pub(crate) fn build_replconf(args: &Vec<Bytes>) -> (r: Result<Command, String>)
    requires
        args.len() > 0,
    ensures
        built(r) == replconf_spec(contents(args@)),
{
    if args.len() < 2 {
        return Err("wrong number of arguments for 'replconf' command".to_owned());
    }
    Ok(Command::Replconf(keys_from(args, 1)))
}

/// What `EVAL` / `EVAL_RO` builds from its arguments.
pub open spec fn eval_spec(a: Seq<Seq<u8>>) -> Result<CommandView, Seq<char>> {
    if a.len() < 3 {
        Err("wrong number of arguments for 'eval' command"@)
    } else {
        match usize_of(a[2]) {
            None => Err("ERR value is not an integer or out of range"@),
            Some(numkeys) => {
                if numkeys > a.len() - 3 {
                    Err("ERR Number of keys can't be greater than number of args"@)
                } else {
                    let at: int = numkeys + 3;
                    Ok(CommandView::Eval {
                        script: a[1],
                        keys: a.subrange(3, at),
                        args: a.skip(at),
                    })
                }
            },
        }
    }
}

pub(crate) fn build_eval(args: &Vec<Bytes>) -> (r: Result<Command, String>)
    requires
        args.len() > 0,
    ensures
        built(r) == eval_spec(contents(args@)),
{
    if args.len() < 3 {
        return Err("wrong number of arguments for 'eval' command".to_owned());
    }
    let numkeys: usize = match read_usize(args[2].as_ref()) {
        Some(v) => v,
        None => return Err("ERR value is not an integer or out of range".to_owned()),
    };
    if numkeys > args.len() - 3 {
        return Err("ERR Number of keys can't be greater than number of args".to_owned());
    }
    let at: usize = numkeys + 3;
    Ok(Command::Eval {
        script: args[1].clone(),
        keys: keys_between(args, 3, at),
        args: keys_from(args, at),
    })
}

/// What `EVALSHA` / `EVALSHA_RO` builds from its arguments.
pub open spec fn evalsha_spec(a: Seq<Seq<u8>>) -> Result<CommandView, Seq<char>> {
    if a.len() < 3 {
        Err("wrong number of arguments for 'evalsha' command"@)
    } else {
        match usize_of(a[2]) {
            None => Err("ERR value is not an integer or out of range"@),
            Some(numkeys) => {
                if numkeys > a.len() - 3 {
                    Err("ERR Number of keys can't be greater than number of args"@)
                } else {
                    let at: int = numkeys + 3;
                    Ok(CommandView::Evalsha {
                        sha: a[1],
                        keys: a.subrange(3, at),
                        args: a.skip(at),
                    })
                }
            },
        }
    }
}

pub(crate) fn build_evalsha(args: &Vec<Bytes>) -> (r: Result<Command, String>)
    requires
        args.len() > 0,
    ensures
        built(r) == evalsha_spec(contents(args@)),
{
    if args.len() < 3 {
        return Err("wrong number of arguments for 'evalsha' command".to_owned());
    }
    let numkeys: usize = match read_usize(args[2].as_ref()) {
        Some(v) => v,
        None => return Err("ERR value is not an integer or out of range".to_owned()),
    };
    if numkeys > args.len() - 3 {
        return Err("ERR Number of keys can't be greater than number of args".to_owned());
    }
    let at: usize = numkeys + 3;
    Ok(Command::Evalsha {
        sha: args[1].clone(),
        keys: keys_between(args, 3, at),
        args: keys_from(args, at),
    })
}

/// What `SCRIPT` builds from its arguments.
pub open spec fn script_spec(a: Seq<Seq<u8>>) -> Result<CommandView, Seq<char>> {
    if a.len() < 2 {
        Err("wrong number of arguments for 'script' command"@)
    } else {
        let sub = upper_word(a[1]);
        if sub == "LOAD"@ {
            if a.len() != 3 {
                Err("wrong number of arguments for 'script|load' command"@)
            } else {
                Ok(CommandView::ScriptLoad(a[2]))
            }
        } else if sub == "EXISTS"@ {
            if a.len() < 3 {
                Err("wrong number of arguments for 'script|exists' command"@)
            } else {
                Ok(CommandView::ScriptExists(a.skip(2)))
            }
        } else if sub == "FLUSH"@ {
            Ok(CommandView::ScriptFlush)
        } else {
            Err("ERR Unknown SCRIPT subcommand or wrong number of arguments for '"@ + sub + "'"@)
        }
    }
}

pub(crate) fn build_script(args: &Vec<Bytes>) -> (r: Result<Command, String>)
    requires
        args.len() > 0,
    ensures
        built(r) == script_spec(contents(args@)),
{
    if args.len() < 2 {
        return Err("wrong number of arguments for 'script' command".to_owned());
    }
    let sub: String = upper(&args[1]);
    if same_text(&sub, "LOAD") {
        if args.len() != 3 {
            return Err("wrong number of arguments for 'script|load' command".to_owned());
        }
        Ok(Command::ScriptLoad(args[2].clone()))
    } else if same_text(&sub, "EXISTS") {
        if args.len() < 3 {
            return Err("wrong number of arguments for 'script|exists' command".to_owned());
        }
        Ok(Command::ScriptExists(keys_from(args, 2)))
    } else if same_text(&sub, "FLUSH") {
        Ok(Command::ScriptFlush)
    } else {
        Err(join3(
            "ERR Unknown SCRIPT subcommand or wrong number of arguments for '",
            sub.as_str(),
            "'",
        ))
    }
}

/// What `TIER` builds from its arguments.
pub open spec fn tier_spec(a: Seq<Seq<u8>>) -> Result<CommandView, Seq<char>> {
    if a.len() < 2 {
        Err("wrong number of arguments for 'tier' command"@)
    } else {
        let sub = upper_word(a[1]);
        if sub == "SPILL"@ {
            if a.len() != 3 {
                Err("wrong number of arguments for 'tier spill' command"@)
            } else {
                Ok(CommandView::Tier(TierSubcommandView::Spill(a[2])))
            }
        } else if sub == "LOAD"@ || sub == "PROMOTE"@ {
            if a.len() != 3 {
                Err("wrong number of arguments for 'tier load' command"@)
            } else {
                Ok(CommandView::Tier(TierSubcommandView::Load(a[2])))
            }
        } else if sub == "COOL"@ {
            if a.len() != 3 {
                Err("wrong number of arguments for 'tier cool' command"@)
            } else {
                Ok(CommandView::Tier(TierSubcommandView::Cool(a[2])))
            }
        } else if sub == "DECOMMIT"@ {
            if a.len() == 2 {
                Ok(CommandView::Tier(TierSubcommandView::Decommit(None)))
            } else if a.len() == 3 {
                Ok(CommandView::Tier(TierSubcommandView::Decommit(Some(a[2]))))
            } else {
                Err("wrong number of arguments for 'tier decommit' command"@)
            }
        } else if sub == "INFO"@ {
            Ok(CommandView::Tier(TierSubcommandView::Info))
        } else if sub == "SPILLALL"@ {
            Ok(CommandView::Tier(TierSubcommandView::SpillAll))
        } else if sub == "GC"@ {
            Ok(CommandView::Tier(TierSubcommandView::Gc))
        } else if sub == "SNAPSHOT"@ || sub == "BACKUP"@ {
            if a.len() < 3 {
                Err("wrong number of arguments for 'tier snapshot' command"@)
            } else {
                Ok(CommandView::Tier(TierSubcommandView::Snapshot(lossy_text(a[2]))))
            }
        } else {
            Err("ERR unknown subcommand '"@ + sub + "'. Try TIER SPILL, TIER COOL, TIER DECOMMIT, TIER LOAD, TIER INFO, TIER SPILLALL, TIER GC, TIER SNAPSHOT."@)
        }
    }
}

pub(crate) fn build_tier(args: &Vec<Bytes>) -> (r: Result<Command, String>)
    requires
        args.len() > 0,
    ensures
        built(r) == tier_spec(contents(args@)),
{
    if args.len() < 2 {
        return Err("wrong number of arguments for 'tier' command".to_owned());
    }
    let sub: String = upper(&args[1]);
    if same_text(&sub, "SPILL") {
        if args.len() != 3 {
            return Err("wrong number of arguments for 'tier spill' command".to_owned());
        }
        Ok(Command::Tier(TierSubcommand::Spill(args[2].clone())))
    } else if same_text(&sub, "LOAD") || same_text(&sub, "PROMOTE") {
        if args.len() != 3 {
            return Err("wrong number of arguments for 'tier load' command".to_owned());
        }
        Ok(Command::Tier(TierSubcommand::Load(args[2].clone())))
    } else if same_text(&sub, "COOL") {
        if args.len() != 3 {
            return Err("wrong number of arguments for 'tier cool' command".to_owned());
        }
        Ok(Command::Tier(TierSubcommand::Cool(args[2].clone())))
    } else if same_text(&sub, "DECOMMIT") {
        if args.len() == 2 {
            Ok(Command::Tier(TierSubcommand::Decommit(None)))
        } else if args.len() == 3 {
            Ok(Command::Tier(TierSubcommand::Decommit(Some(args[2].clone()))))
        } else {
            Err("wrong number of arguments for 'tier decommit' command".to_owned())
        }
    } else if same_text(&sub, "INFO") {
        Ok(Command::Tier(TierSubcommand::Info))
    } else if same_text(&sub, "SPILLALL") {
        Ok(Command::Tier(TierSubcommand::SpillAll))
    } else if same_text(&sub, "GC") {
        Ok(Command::Tier(TierSubcommand::Gc))
    } else if same_text(&sub, "SNAPSHOT") || same_text(&sub, "BACKUP") {
        if args.len() < 3 {
            return Err("wrong number of arguments for 'tier snapshot' command".to_owned());
        }
        Ok(Command::Tier(TierSubcommand::Snapshot(lossy(&args[2]))))
    } else {
        Err(join3(
            "ERR unknown subcommand '",
            sub.as_str(),
            "'. Try TIER SPILL, TIER COOL, TIER DECOMMIT, TIER LOAD, TIER INFO, TIER SPILLALL, TIER GC, TIER SNAPSHOT.",
        ))
    }
}

/// What `DFLYCLUSTER GETSLOTINFO` makes of its arguments from `i` on, given what came before them.
pub open spec fn slot_info_from(
    a: Seq<Seq<u8>>,
    slots: Seq<u16>,
    i: int,
) -> Result<Seq<u16>, Seq<char>>
    decreases a.len() - i,
{
    if i >= a.len() {
        Ok(slots)
    } else {
        match u16_of(a[i]) {
            None => Err("ERR Invalid slot id"@),
            Some(slot) => {
                let slots = slots.push(slot);
                let i: int = i + 1;
                slot_info_from(a, slots, i)
            },
        }
    }
}

/// What `DFLYCLUSTER GETSLOTINFO` builds from its arguments.
pub open spec fn dfly_slot_info_spec(a: Seq<Seq<u8>>) -> Result<CommandView, Seq<char>> {
    if a.len() < 4 || !spells(a[2], "SLOTS"@) {
        Err("ERR syntax error, expected DFLYCLUSTER GETSLOTINFO SLOTS slot1 [slot2 ...]"@)
    } else {
        let slots = Seq::<u16>::empty();
        let i: int = 3;
        match slot_info_from(a, slots, i) {
            Err(e) => Err(e),
            Ok(slots) => {
                Ok(CommandView::DflyCluster(DflyClusterSubcommandView::GetSlotInfo(slots)))
            },
        }
    }
}

#[verifier::loop_isolation(false)]
pub(crate) fn build_dfly_slot_info(args: &Vec<Bytes>) -> (r: Result<Command, String>)
    requires
        args.len() > 1,
    ensures
        built(r) == dfly_slot_info_spec(contents(args@)),
{
    if args.len() < 4 || !spells_word(args[2].as_ref(), "SLOTS") {
        return Err("ERR syntax error, expected DFLYCLUSTER GETSLOTINFO SLOTS slot1 [slot2 ...]".to_owned());
    }
    let mut slots: Vec<u16> = Vec::new();
    let mut i: usize = 3;
    let ghost goal_slot_info_from = slot_info_from(contents(args@), slots@, i as int);
    while i < args.len()
        invariant
            i <= args.len(),
            slot_info_from(contents(args@), slots@, i as int) == goal_slot_info_from,
        decreases args.len() - i,
    {
        let slot: u16 = match read_u16(args[i].as_ref()) {
            Some(v) => v,
            None => return Err("ERR Invalid slot id".to_owned()),
        };
        slots.push(slot);
        i = i + 1;
    }
    Ok(Command::DflyCluster(DflyClusterSubcommand::GetSlotInfo(slots)))
}

/// What `DFLYCLUSTER FLUSHSLOTS` makes of its arguments from `i` on, given what came before them.
pub open spec fn flush_slots_from(
    a: Seq<Seq<u8>>,
    ranges: Seq<(u16, u16)>,
    i: int,
) -> Result<Seq<(u16, u16)>, Seq<char>>
    decreases a.len() - i,
{
    if a.len() - i <= 1 {
        Ok(ranges)
    } else {
        match u16_of(a[i]) {
            None => Err("ERR Invalid start slot"@),
            Some(start) => {
                match u16_of(a[i + 1]) {
                    None => Err("ERR Invalid end slot"@),
                    Some(end) => {
                        if start > end || end >= 16384 {
                            Err("ERR Slot out of range"@)
                        } else {
                            let ranges = ranges.push((start, end));
                            let i: int = i + 2;
                            flush_slots_from(a, ranges, i)
                        }
                    },
                }
            },
        }
    }
}

/// What `DFLYCLUSTER FLUSHSLOTS` builds from its arguments.
pub open spec fn dfly_flush_slots_spec(a: Seq<Seq<u8>>) -> Result<CommandView, Seq<char>> {
    if a.len() < 4 || (a.len() - 2) % 2 != 0 {
        Err("ERR syntax error, expected DFLYCLUSTER FLUSHSLOTS start end [start end ...]"@)
    } else {
        let ranges = Seq::<(u16, u16)>::empty();
        let i: int = 2;
        match flush_slots_from(a, ranges, i) {
            Err(e) => Err(e),
            Ok(ranges) => {
                Ok(CommandView::DflyCluster(DflyClusterSubcommandView::FlushSlots(ranges)))
            },
        }
    }
}

#[verifier::loop_isolation(false)]
pub(crate) fn build_dfly_flush_slots(args: &Vec<Bytes>) -> (r: Result<Command, String>)
    requires
        args.len() > 1,
    ensures
        built(r) == dfly_flush_slots_spec(contents(args@)),
{
    if args.len() < 4 || (args.len() - 2) % 2 != 0 {
        return Err("ERR syntax error, expected DFLYCLUSTER FLUSHSLOTS start end [start end ...]".to_owned());
    }
    let mut ranges: Vec<(u16, u16)> = Vec::new();
    let mut i: usize = 2;
    let ghost goal_flush_slots_from = flush_slots_from(contents(args@), ranges@, i as int);
    while args.len() - i > 1
        invariant
            i <= args.len(),
            flush_slots_from(contents(args@), ranges@, i as int) == goal_flush_slots_from,
        decreases args.len() - i,
    {
        let start: u16 = match read_u16(args[i].as_ref()) {
            Some(v) => v,
            None => return Err("ERR Invalid start slot".to_owned()),
        };
        let end: u16 = match read_u16(args[i + 1].as_ref()) {
            Some(v) => v,
            None => return Err("ERR Invalid end slot".to_owned()),
        };
        if start > end || end >= 16384 {
            return Err("ERR Slot out of range".to_owned());
        }
        ranges.push((start, end));
        i = i + 2;
    }
    Ok(Command::DflyCluster(DflyClusterSubcommand::FlushSlots(ranges)))
}

/// What `DFLYCLUSTER` builds from its arguments.
pub open spec fn dflycluster_spec(a: Seq<Seq<u8>>) -> Result<CommandView, Seq<char>> {
    if a.len() < 2 {
        Err("ERR wrong number of arguments for 'dflycluster' command"@)
    } else {
        let sub = upper_word(a[1]);
        if sub == "MYID"@ {
            Ok(CommandView::DflyCluster(DflyClusterSubcommandView::MyId))
        } else if sub == "CONFIG"@ {
            if a.len() != 3 {
                Err("ERR wrong number of arguments for 'dflycluster config' command"@)
            } else {
                Ok(CommandView::DflyCluster(DflyClusterSubcommandView::Config(lossy_text(a[2]))))
            }
        } else if sub == "GETSLOTINFO"@ {
            dfly_slot_info_spec(a)
        } else if sub == "FLUSHSLOTS"@ {
            dfly_flush_slots_spec(a)
        } else if sub == "SLOT-MIGRATION-STATUS"@ {
            Ok(CommandView::DflyCluster(DflyClusterSubcommandView::SlotMigrationStatus))
        } else {
            Err("ERR unknown subcommand '"@ + sub + "' for DFLYCLUSTER"@)
        }
    }
}

pub(crate) fn build_dflycluster(args: &Vec<Bytes>) -> (r: Result<Command, String>)
    requires
        args.len() > 0,
    ensures
        built(r) == dflycluster_spec(contents(args@)),
{
    if args.len() < 2 {
        return Err("ERR wrong number of arguments for 'dflycluster' command".to_owned());
    }
    let sub: String = upper(&args[1]);
    if same_text(&sub, "MYID") {
        Ok(Command::DflyCluster(DflyClusterSubcommand::MyId))
    } else if same_text(&sub, "CONFIG") {
        if args.len() != 3 {
            return Err("ERR wrong number of arguments for 'dflycluster config' command".to_owned());
        }
        Ok(Command::DflyCluster(DflyClusterSubcommand::Config(lossy(&args[2]))))
    } else if same_text(&sub, "GETSLOTINFO") {
        build_dfly_slot_info(args)
    } else if same_text(&sub, "FLUSHSLOTS") {
        build_dfly_flush_slots(args)
    } else if same_text(&sub, "SLOT-MIGRATION-STATUS") {
        Ok(Command::DflyCluster(DflyClusterSubcommand::SlotMigrationStatus))
    } else {
        Err(join3("ERR unknown subcommand '", sub.as_str(), "' for DFLYCLUSTER"))
    }
}

/// What `DFLY` builds from its arguments.
pub open spec fn dfly_spec(a: Seq<Seq<u8>>) -> Result<CommandView, Seq<char>> {
    if a.len() < 2 {
        Err("ERR wrong number of arguments for 'dfly' command"@)
    } else {
        let sub = upper_word(a[1]);
        if sub == "FLOW"@ {
            if a.len() < 5 {
                Err("ERR wrong number of arguments for 'dfly flow' command"@)
            } else {
                match usize_of(a[4]) {
                    None => Err("ERR invalid shard id"@),
                    Some(shard_id) => {
                        if a.len() > 5 {
                            Ok(CommandView::DflyFlow {
                                master_replid: lossy_text(a[2]),
                                sync_id: lossy_text(a[3]),
                                shard_id,
                                lsn: u64_of(a[5]),
                            })
                        } else {
                            Ok(CommandView::DflyFlow {
                                master_replid: lossy_text(a[2]),
                                sync_id: lossy_text(a[3]),
                                shard_id,
                                lsn: None,
                            })
                        }
                    },
                }
            }
        } else {
            Ok(CommandView::Unknown("DFLY "@ + sub))
        }
    }
}

pub(crate) fn build_dfly(args: &Vec<Bytes>) -> (r: Result<Command, String>)
    requires
        args.len() > 0,
    ensures
        built(r) == dfly_spec(contents(args@)),
{
    if args.len() < 2 {
        return Err("ERR wrong number of arguments for 'dfly' command".to_owned());
    }
    let sub: String = upper(&args[1]);
    if same_text(&sub, "FLOW") {
        if args.len() < 5 {
            return Err("ERR wrong number of arguments for 'dfly flow' command".to_owned());
        }
        let shard_id: usize = match read_usize(args[4].as_ref()) {
            Some(v) => v,
            None => return Err("ERR invalid shard id".to_owned()),
        };
        if args.len() > 5 {
            Ok(Command::DflyFlow {
                master_replid: lossy(&args[2]),
                sync_id: lossy(&args[3]),
                shard_id,
                lsn: read_u64(args[5].as_ref()),
            })
        } else {
            Ok(Command::DflyFlow {
                master_replid: lossy(&args[2]),
                sync_id: lossy(&args[3]),
                shard_id,
                lsn: None,
            })
        }
    } else {
        Ok(Command::Unknown(join2("DFLY ", sub.as_str())))
    }
}

/// What `DFLYMIGRATE INIT` makes of its arguments from `i` on, given what came before them.
pub open spec fn migrate_slots(
    a: Seq<Seq<u8>>,
    slots: Seq<(u16, u16)>,
    i: int,
) -> Seq<(u16, u16)>
    decreases a.len() - i,
{
    if a.len() - i <= 1 {
        slots
    } else {
        let start: u16 = 0;
        let start = match u16_of(a[i]) {
            Some(s) => {
                let start = s;
                start
            },
            None => {
                start
            },
        };
        let end: u16 = 0;
        let end = match u16_of(a[i + 1]) {
            Some(e) => {
                let end = e;
                end
            },
            None => {
                end
            },
        };
        let slots = slots.push((start, end));
        let i: int = i + 2;
        migrate_slots(a, slots, i)
    }
}

/// What `DFLYMIGRATE INIT` builds from its arguments.
pub open spec fn dfly_migrate_init_spec(a: Seq<Seq<u8>>) -> Result<CommandView, Seq<char>> {
    if a.len() < 5 {
        Err("ERR wrong number of arguments for 'dflymigrate init' command"@)
    } else {
        match usize_of(a[3]) {
            None => Err("ERR Invalid num_shards"@),
            Some(num_shards) => {
                let slots = Seq::<(u16, u16)>::empty();
                let i: int = 4;
                let slots = migrate_slots(a, slots, i);
                Ok(CommandView::DflyMigrate(DflyMigrateSubcommandView::Init {
                    source_id: lossy_text(a[2]),
                    num_shards,
                    slots,
                }))
            },
        }
    }
}

#[verifier::loop_isolation(false)]
pub(crate) fn build_dfly_migrate_init(args: &Vec<Bytes>) -> (r: Result<Command, String>)
    requires
        args.len() > 1,
    ensures
        built(r) == dfly_migrate_init_spec(contents(args@)),
{
    if args.len() < 5 {
        return Err("ERR wrong number of arguments for 'dflymigrate init' command".to_owned());
    }
    let num_shards: usize = match read_usize(args[3].as_ref()) {
        Some(v) => v,
        None => return Err("ERR Invalid num_shards".to_owned()),
    };
    let mut slots: Vec<(u16, u16)> = Vec::new();
    let mut i: usize = 4;
    let ghost goal_migrate_slots = migrate_slots(contents(args@), slots@, i as int);
    while args.len() - i > 1
        invariant
            i <= args.len(),
            migrate_slots(contents(args@), slots@, i as int) == goal_migrate_slots,
        decreases args.len() - i,
    {
        let mut start: u16 = 0;
        match read_u16(args[i].as_ref()) {
            Some(s) => {
                start = s;
            },
            None => {
            },
        }
        let mut end: u16 = 0;
        match read_u16(args[i + 1].as_ref()) {
            Some(e) => {
                end = e;
            },
            None => {
            },
        }
        slots.push((start, end));
        i = i + 2;
    }
    Ok(Command::DflyMigrate(DflyMigrateSubcommand::Init {
        source_id: lossy(&args[2]),
        num_shards,
        slots,
    }))
}

/// What `DFLYMIGRATE` builds from its arguments.
pub open spec fn dflymigrate_spec(a: Seq<Seq<u8>>) -> Result<CommandView, Seq<char>> {
    if a.len() < 2 {
        Err("ERR wrong number of arguments for 'dflymigrate' command"@)
    } else {
        let sub = upper_word(a[1]);
        if sub == "INIT"@ {
            dfly_migrate_init_spec(a)
        } else if sub == "FLOW"@ {
            if a.len() != 4 {
                Err("ERR wrong number of arguments for 'dflymigrate flow' command"@)
            } else {
                match u64_of(a[3]) {
                    None => Err("ERR Invalid flow_id"@),
                    Some(flow_id) => {
                        Ok(CommandView::DflyMigrate(DflyMigrateSubcommandView::Flow {
                            source_id: lossy_text(a[2]),
                            flow_id,
                        }))
                    },
                }
            }
        } else if sub == "ACK"@ {
            if a.len() != 3 {
                Err("ERR wrong number of arguments for 'dflymigrate ack' command"@)
            } else {
                match u64_of(a[2]) {
                    None => Err("ERR Invalid flow_id"@),
                    Some(flow_id) => {
                        Ok(CommandView::DflyMigrate(DflyMigrateSubcommandView::Ack { flow_id }))
                    },
                }
            }
        } else {
            Err("ERR unknown subcommand '"@ + sub + "' for DFLYMIGRATE"@)
        }
    }
}

pub(crate) fn build_dflymigrate(args: &Vec<Bytes>) -> (r: Result<Command, String>)
    requires
        args.len() > 0,
    ensures
        built(r) == dflymigrate_spec(contents(args@)),
{
    if args.len() < 2 {
        return Err("ERR wrong number of arguments for 'dflymigrate' command".to_owned());
    }
    let sub: String = upper(&args[1]);
    if same_text(&sub, "INIT") {
        build_dfly_migrate_init(args)
    } else if same_text(&sub, "FLOW") {
        if args.len() != 4 {
            return Err("ERR wrong number of arguments for 'dflymigrate flow' command".to_owned());
        }
        let flow_id: u64 = match read_u64(args[3].as_ref()) {
            Some(v) => v,
            None => return Err("ERR Invalid flow_id".to_owned()),
        };
        Ok(Command::DflyMigrate(DflyMigrateSubcommand::Flow {
            source_id: lossy(&args[2]),
            flow_id,
        }))
    } else if same_text(&sub, "ACK") {
        if args.len() != 3 {
            return Err("ERR wrong number of arguments for 'dflymigrate ack' command".to_owned());
        }
        let flow_id: u64 = match read_u64(args[2].as_ref()) {
            Some(v) => v,
            None => return Err("ERR Invalid flow_id".to_owned()),
        };
        Ok(Command::DflyMigrate(DflyMigrateSubcommand::Ack { flow_id }))
    } else {
        Err(join3("ERR unknown subcommand '", sub.as_str(), "' for DFLYMIGRATE"))
    }
}

/// What `CONFIG` builds from its arguments.
pub open spec fn config_spec(a: Seq<Seq<u8>>) -> Result<CommandView, Seq<char>> {
    if a.len() < 2 {
        Err("wrong number of arguments for 'config' command"@)
    } else {
        let sub = upper_word(a[1]);
        if sub == "GET"@ {
            if a.len() != 3 {
                Err("wrong number of arguments for 'config get' command"@)
            } else {
                Ok(CommandView::ConfigGet(a[2]))
            }
        } else if sub == "SET"@ {
            if a.len() < 4 {
                Err("wrong number of arguments for 'config set' command"@)
            } else {
                Ok(CommandView::ConfigSet(a[2], unquoted(joined(a.skip(3)))))
            }
        } else if sub == "RESETSTAT"@ {
            Ok(CommandView::ConfigSet(encode_utf8("resetstat"@), encode_utf8(""@)))
        } else if sub == "REWRITE"@ {
            Ok(CommandView::ConfigSet(encode_utf8("rewrite"@), encode_utf8(""@)))
        } else {
            Err("ERR unknown subcommand '"@ + sub + "' for CONFIG"@)
        }
    }
}

pub(crate) fn build_config(args: &Vec<Bytes>) -> (r: Result<Command, String>)
    requires
        args.len() > 0,
    ensures
        built(r) == config_spec(contents(args@)),
{
    if args.len() < 2 {
        return Err("wrong number of arguments for 'config' command".to_owned());
    }
    let sub: String = upper(&args[1]);
    if same_text(&sub, "GET") {
        if args.len() != 3 {
            return Err("wrong number of arguments for 'config get' command".to_owned());
        }
        Ok(Command::ConfigGet(args[2].clone()))
    } else if same_text(&sub, "SET") {
        if args.len() < 4 {
            return Err("wrong number of arguments for 'config set' command".to_owned());
        }
        Ok(Command::ConfigSet(args[2].clone(), config_value(args)))
    } else if same_text(&sub, "RESETSTAT") {
        Ok(Command::ConfigSet(
            Bytes::copy_from_slice("resetstat".as_bytes()),
            Bytes::copy_from_slice("".as_bytes()),
        ))
    } else if same_text(&sub, "REWRITE") {
        Ok(Command::ConfigSet(
            Bytes::copy_from_slice("rewrite".as_bytes()),
            Bytes::copy_from_slice("".as_bytes()),
        ))
    } else {
        Err(join3("ERR unknown subcommand '", sub.as_str(), "' for CONFIG"))
    }
}

/// What `SHUTDOWN` builds from its arguments.
pub open spec fn shutdown_spec(a: Seq<Seq<u8>>) -> Result<CommandView, Seq<char>> {
    if a.len() > 1 {
        let how = upper_word(a[1]);
        if how == "SAVE"@ {
            Ok(CommandView::Shutdown { save: Some(true) })
        } else if how == "NOSAVE"@ {
            Ok(CommandView::Shutdown { save: Some(false) })
        } else {
            Ok(CommandView::Shutdown { save: None })
        }
    } else {
        Ok(CommandView::Shutdown { save: None })
    }
}

pub(crate) fn build_shutdown(args: &Vec<Bytes>) -> (r: Result<Command, String>)
    requires
        args.len() > 0,
    ensures
        built(r) == shutdown_spec(contents(args@)),
{
    if args.len() > 1 {
        let how: String = upper(&args[1]);
        if same_text(&how, "SAVE") {
            Ok(Command::Shutdown { save: Some(true) })
        } else if same_text(&how, "NOSAVE") {
            Ok(Command::Shutdown { save: Some(false) })
        } else {
            Ok(Command::Shutdown { save: None })
        }
    } else {
        Ok(Command::Shutdown { save: None })
    }
}

/// The commands on administration, scripts and configuration: the command that `name` stands for among them, if it is one.
pub open spec fn admin_command_spec(
    name: Seq<char>,
    a: Seq<Seq<u8>>,
) -> Option<Result<CommandView, Seq<char>>> {
    if name == "SAVE"@ {
        Some(save_spec(a))
    } else if name == "BGSAVE"@ {
        Some(bgsave_spec(a))
    } else if name == "BGREWRITEAOF"@ {
        Some(bgrewriteaof_spec(a))
    } else if name == "LASTSAVE"@ {
        Some(lastsave_spec(a))
    } else if name == "ROLE"@ {
        Some(role_spec(a))
    } else if name == "QUIT"@ {
        Some(quit_spec(a))
    } else if name == "COMMAND"@ {
        Some(command_spec(a))
    } else if name == "STATS"@ {
        Some(memcached_stats_spec(a))
    } else if name == "VERSION"@ {
        Some(memcached_version_spec(a))
    } else if name == "SLOWLOG"@ {
        Some(slowlog_spec(a))
    } else if name == "DEBUG"@ {
        Some(debug_spec(a))
    } else if name == "MEMORY"@ {
        Some(memory_spec(a))
    } else if name == "DEFRAG"@ || name == "ACTIVE-DEFRAG"@ {
        Some(defrag_spec(a))
    } else if name == "INFO"@ {
        Some(info_spec(a))
    } else if name == "REPLICAOF"@ || name == "SLAVEOF"@ {
        Some(replicaof_spec(a))
    } else if name == "PSYNC"@ {
        Some(psync_spec(a))
    } else if name == "REPLCONF"@ {
        Some(replconf_spec(a))
    } else if name == "EVAL"@ || name == "EVAL_RO"@ {
        Some(eval_spec(a))
    } else if name == "EVALSHA"@ || name == "EVALSHA_RO"@ {
        Some(evalsha_spec(a))
    } else if name == "SCRIPT"@ {
        Some(script_spec(a))
    } else if name == "TIER"@ {
        Some(tier_spec(a))
    } else if name == "DFLYCLUSTER"@ {
        Some(dflycluster_spec(a))
    } else if name == "DFLY"@ {
        Some(dfly_spec(a))
    } else if name == "DFLYMIGRATE"@ {
        Some(dflymigrate_spec(a))
    } else if name == "CONFIG"@ {
        Some(config_spec(a))
    } else if name == "SHUTDOWN"@ {
        Some(shutdown_spec(a))
    } else {
        None
    }
}

pub(crate) fn admin_command(name: &str, args: &Vec<Bytes>) -> (r: Option<Result<Command, String>>)
    requires
        args.len() > 0,
    ensures
        built_opt(r) == admin_command_spec(name@, contents(args@)),
{
    if same_text(name, "SAVE") {
        Some(build_save(args))
    } else if same_text(name, "BGSAVE") {
        Some(build_bgsave(args))
    } else if same_text(name, "BGREWRITEAOF") {
        Some(build_bgrewriteaof(args))
    } else if same_text(name, "LASTSAVE") {
        Some(build_lastsave(args))
    } else if same_text(name, "ROLE") {
        Some(build_role(args))
    } else if same_text(name, "QUIT") {
        Some(build_quit(args))
    } else if same_text(name, "COMMAND") {
        Some(build_command(args))
    } else if same_text(name, "STATS") {
        Some(build_memcached_stats(args))
    } else if same_text(name, "VERSION") {
        Some(build_memcached_version(args))
    } else if same_text(name, "SLOWLOG") {
        Some(build_slowlog(args))
    } else if same_text(name, "DEBUG") {
        Some(build_debug(args))
    } else if same_text(name, "MEMORY") {
        Some(build_memory(args))
    } else if same_text(name, "DEFRAG") || same_text(name, "ACTIVE-DEFRAG") {
        Some(build_defrag(args))
    } else if same_text(name, "INFO") {
        Some(build_info(args))
    } else if same_text(name, "REPLICAOF") || same_text(name, "SLAVEOF") {
        Some(build_replicaof(args))
    } else if same_text(name, "PSYNC") {
        Some(build_psync(args))
    } else if same_text(name, "REPLCONF") {
        Some(build_replconf(args))
    } else if same_text(name, "EVAL") || same_text(name, "EVAL_RO") {
        Some(build_eval(args))
    } else if same_text(name, "EVALSHA") || same_text(name, "EVALSHA_RO") {
        Some(build_evalsha(args))
    } else if same_text(name, "SCRIPT") {
        Some(build_script(args))
    } else if same_text(name, "TIER") {
        Some(build_tier(args))
    } else if same_text(name, "DFLYCLUSTER") {
        Some(build_dflycluster(args))
    } else if same_text(name, "DFLY") {
        Some(build_dfly(args))
    } else if same_text(name, "DFLYMIGRATE") {
        Some(build_dflymigrate(args))
    } else if same_text(name, "CONFIG") {
        Some(build_config(args))
    } else if same_text(name, "SHUTDOWN") {
        Some(build_shutdown(args))
    } else {
        None
    }
}

} // verus!
