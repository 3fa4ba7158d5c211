//! What the commands on administration, scripts and replication stand for.
use vstd::prelude::*;
use vstd::utf8::*;

use crate::build::named_command_spec;
use crate::build::admin::{
    bgrewriteaof_spec, bgsave_spec, command_spec, config_spec, debug_spec, defrag_spec, dfly_spec,
    dflycluster_spec, dflymigrate_spec, eval_spec, evalsha_spec, info_spec, lastsave_spec,
    memcached_stats_spec, memcached_version_spec, memory_spec, psync_spec, quit_spec,
    replconf_spec, replicaof_spec, role_spec, save_spec, script_spec, shutdown_spec, slowlog_spec,
    tier_spec,
};
use crate::build::naming::{lemma_admin_codes, lemma_reach_admin, name_code};
use crate::command::{
    CommandView, DflyClusterSubcommandView, DflyMigrateSubcommandView, MemorySubcommandView,
    TierSubcommandView,
};
use crate::numbers::{i64_of, u64_of, usize_of};
use crate::readings::ParseEnv;
use crate::resp::unnamed;
use crate::text::{lossy_text, spells, upper_word};
use super::{called, lemma_called, makes, refuses, verdict};

verus! {

/// What `SAVE` stands for.
pub proof fn law_save(a: Seq<Seq<u8>>, env: &ParseEnv)
    requires
        called(a, "SAVE"@),
    ensures
        makes(a, env, CommandView::Save),
{
    reveal(verdict);
    lemma_called(a);
    assert(named_command_spec(upper_word(a[0]), unnamed(a), env) == save_spec(unnamed(a))) by {
        lemma_reach_admin(upper_word(a[0]), unnamed(a), env);
        lemma_admin_codes();
    }
}

/// What `BGSAVE` stands for.
pub proof fn law_bgsave(a: Seq<Seq<u8>>, env: &ParseEnv)
    requires
        called(a, "BGSAVE"@),
    ensures
        makes(a, env, CommandView::Bgsave),
{
    reveal(verdict);
    lemma_called(a);
    assert(named_command_spec(upper_word(a[0]), unnamed(a), env) == bgsave_spec(unnamed(a))) by {
        lemma_reach_admin(upper_word(a[0]), unnamed(a), env);
        lemma_admin_codes();
    }
}

/// What `BGREWRITEAOF` stands for.
pub proof fn law_bgrewriteaof(a: Seq<Seq<u8>>, env: &ParseEnv)
    requires
        called(a, "BGREWRITEAOF"@),
    ensures
        makes(a, env, CommandView::Bgrewriteaof),
{
    reveal(verdict);
    lemma_called(a);
    assert(named_command_spec(
        upper_word(a[0]),
        unnamed(a),
        env,
    ) == bgrewriteaof_spec(unnamed(a))) by {
        lemma_reach_admin(upper_word(a[0]), unnamed(a), env);
        lemma_admin_codes();
    }
}

/// What `LASTSAVE` stands for.
pub proof fn law_lastsave(a: Seq<Seq<u8>>, env: &ParseEnv)
    requires
        called(a, "LASTSAVE"@),
    ensures
        makes(a, env, CommandView::Lastsave),
{
    reveal(verdict);
    lemma_called(a);
    assert(named_command_spec(upper_word(a[0]), unnamed(a), env) == lastsave_spec(unnamed(a))) by {
        lemma_reach_admin(upper_word(a[0]), unnamed(a), env);
        lemma_admin_codes();
    }
}

/// What `ROLE` stands for.
pub proof fn law_role(a: Seq<Seq<u8>>, env: &ParseEnv)
    requires
        called(a, "ROLE"@),
    ensures
        makes(a, env, CommandView::Role),
{
    reveal(verdict);
    lemma_called(a);
    assert(named_command_spec(upper_word(a[0]), unnamed(a), env) == role_spec(unnamed(a))) by {
        lemma_reach_admin(upper_word(a[0]), unnamed(a), env);
        lemma_admin_codes();
    }
}

/// What `QUIT` stands for.
pub proof fn law_quit(a: Seq<Seq<u8>>, env: &ParseEnv)
    requires
        called(a, "QUIT"@),
    ensures
        makes(a, env, CommandView::Quit),
{
    reveal(verdict);
    lemma_called(a);
    assert(named_command_spec(upper_word(a[0]), unnamed(a), env) == quit_spec(unnamed(a))) by {
        lemma_reach_admin(upper_word(a[0]), unnamed(a), env);
        lemma_admin_codes();
    }
}

/// What `COMMAND` stands for.
pub proof fn law_command(a: Seq<Seq<u8>>, env: &ParseEnv)
    requires
        called(a, "COMMAND"@),
    ensures
        makes(a, env, CommandView::CommandDocs),
{
    reveal(verdict);
    lemma_called(a);
    assert(named_command_spec(upper_word(a[0]), unnamed(a), env) == command_spec(unnamed(a))) by {
        lemma_reach_admin(upper_word(a[0]), unnamed(a), env);
        lemma_admin_codes();
    }
}

/// What `STATS` stands for.
pub proof fn law_memcached_stats(a: Seq<Seq<u8>>, env: &ParseEnv)
    requires
        called(a, "STATS"@),
    ensures
        makes(a, env, CommandView::MemcachedStats),
{
    reveal(verdict);
    lemma_called(a);
    assert(named_command_spec(
        upper_word(a[0]),
        unnamed(a),
        env,
    ) == memcached_stats_spec(unnamed(a))) by {
        lemma_reach_admin(upper_word(a[0]), unnamed(a), env);
        lemma_admin_codes();
    }
}

/// What `VERSION` stands for.
pub proof fn law_memcached_version(a: Seq<Seq<u8>>, env: &ParseEnv)
    requires
        called(a, "VERSION"@),
    ensures
        makes(a, env, CommandView::MemcachedVersion),
{
    reveal(verdict);
    lemma_called(a);
    assert(named_command_spec(
        upper_word(a[0]),
        unnamed(a),
        env,
    ) == memcached_version_spec(unnamed(a))) by {
        lemma_reach_admin(upper_word(a[0]), unnamed(a), env);
        lemma_admin_codes();
    }
}

/// What `SLOWLOG` stands for.
pub proof fn law_slowlog(a: Seq<Seq<u8>>, env: &ParseEnv)
    requires
        called(a, "SLOWLOG"@),
    ensures
        a.len() >= 2 ==> makes(a, env, CommandView::Slowlog(a.skip(1))),
        a.len() <= 1 ==> makes(a, env, CommandView::Slowlog(seq![encode_utf8("GET"@)])),
{
    reveal(verdict);
    lemma_called(a);
    assert(named_command_spec(upper_word(a[0]), unnamed(a), env) == slowlog_spec(unnamed(a))) by {
        lemma_reach_admin(upper_word(a[0]), unnamed(a), env);
        lemma_admin_codes();
    }
}

/// What `DEBUG` stands for.
pub proof fn law_debug(a: Seq<Seq<u8>>, env: &ParseEnv)
    requires
        called(a, "DEBUG"@),
    ensures
        makes(a, env, CommandView::Debug(a.skip(1))),
{
    reveal(verdict);
    lemma_called(a);
    assert(named_command_spec(upper_word(a[0]), unnamed(a), env) == debug_spec(unnamed(a))) by {
        lemma_reach_admin(upper_word(a[0]), unnamed(a), env);
        lemma_admin_codes();
    }
}

/// What `MEMORY` stands for.
pub proof fn law_memory(a: Seq<Seq<u8>>, env: &ParseEnv)
    requires
        called(a, "MEMORY"@),
    ensures
        a.len() < 2 ==> refuses(a, env, "wrong number of arguments for 'memory' command"@),
        a.len() >= 2 && upper_word(a[1]) == "USAGE"@ && a.len() < 3 ==>
            refuses(a, env, "wrong number of arguments for 'memory|usage' command"@),
        a.len() >= 3 && upper_word(a[1]) == "USAGE"@ ==>
            makes(a, env, CommandView::Memory(MemorySubcommandView::Usage { key: a[2] })),
        a.len() >= 2 && upper_word(a[1]) == "STATS"@ ==>
            makes(a, env, CommandView::Memory(MemorySubcommandView::Stats)),
        a.len() >= 2 && upper_word(a[1]) == "PURGE"@ ==>
            makes(a, env, CommandView::Memory(MemorySubcommandView::Purge)),
        a.len() >= 2 && upper_word(a[1]) == "DOCTOR"@ ==>
            makes(a, env, CommandView::Memory(MemorySubcommandView::Doctor)),
        a.len() >= 2 && upper_word(a[1]) == "DEFRAG"@ ==>
            makes(a, env, CommandView::Memory(MemorySubcommandView::Defrag)),
        a.len() >= 2 && upper_word(a[1]) != "USAGE"@ && upper_word(a[1]) != "STATS"@
            && upper_word(a[1]) != "PURGE"@ && upper_word(a[1]) != "DOCTOR"@
            && upper_word(a[1]) != "DEFRAG"@ ==>
            refuses(a, env, "unknown subcommand '"@ + upper_word(a[1]) + "' for 'memory'"@),
{
    reveal(verdict);
    lemma_called(a);
    assert(named_command_spec(upper_word(a[0]), unnamed(a), env) == memory_spec(unnamed(a))) by {
        lemma_reach_admin(upper_word(a[0]), unnamed(a), env);
        lemma_admin_codes();
    }
    reveal(name_code);
    reveal_strlit("DEFRAG");
    reveal_strlit("DOCTOR");
    reveal_strlit("PURGE");
    reveal_strlit("STATS");
    reveal_strlit("USAGE");
    assert(name_code("DEFRAG"@) == 7506452383368206);
    assert(name_code("DOCTOR"@) == 7510750778555606);
    assert(name_code("PURGE"@) == 8832719364283405);
    assert(name_code("STATS"@) == 9162165166598505);
    assert(name_code("USAGE"@) == 9381616184710505);
}

/// What `DEFRAG` or `ACTIVE-DEFRAG` stands for.
pub proof fn law_defrag(a: Seq<Seq<u8>>, env: &ParseEnv)
    requires
        called(a, "DEFRAG"@) || called(a, "ACTIVE-DEFRAG"@),
    ensures
        makes(a, env, CommandView::Memory(MemorySubcommandView::Defrag)),
{
    reveal(verdict);
    lemma_called(a);
    assert(named_command_spec(upper_word(a[0]), unnamed(a), env) == defrag_spec(unnamed(a))) by {
        lemma_reach_admin(upper_word(a[0]), unnamed(a), env);
        lemma_admin_codes();
    }
}

/// What `INFO` stands for.
pub proof fn law_info(a: Seq<Seq<u8>>, env: &ParseEnv)
    requires
        called(a, "INFO"@),
    ensures
        a.len() >= 2 ==> makes(a, env, CommandView::Info(Some(a[1]))),
        a.len() <= 1 ==> makes(a, env, CommandView::Info(None)),
{
    reveal(verdict);
    lemma_called(a);
    assert(named_command_spec(upper_word(a[0]), unnamed(a), env) == info_spec(unnamed(a))) by {
        lemma_reach_admin(upper_word(a[0]), unnamed(a), env);
        lemma_admin_codes();
    }
}

/// What `REPLICAOF` or `SLAVEOF` stands for.
pub proof fn law_replicaof(a: Seq<Seq<u8>>, env: &ParseEnv)
    requires
        called(a, "REPLICAOF"@) || called(a, "SLAVEOF"@),
    ensures
        a.len() != 3 ==> refuses(a, env, "wrong number of arguments for 'replicaof' command"@),
        a.len() == 3 ==> makes(a, env, CommandView::Replicaof { host: a[1], port: a[2] }),
{
    reveal(verdict);
    lemma_called(a);
    assert(named_command_spec(upper_word(a[0]), unnamed(a), env) == replicaof_spec(unnamed(a))) by {
        lemma_reach_admin(upper_word(a[0]), unnamed(a), env);
        lemma_admin_codes();
    }
}

/// What `PSYNC` stands for.
pub proof fn law_psync(a: Seq<Seq<u8>>, env: &ParseEnv)
    requires
        called(a, "PSYNC"@),
    ensures
        a.len() != 3 ==> refuses(a, env, "wrong number of arguments for 'psync' command"@),
        a.len() == 3 && i64_of(a[2]) is None ==>
            refuses(a, env, "ERR value is not an integer or out of range"@),
        a.len() == 3 && i64_of(a[2]) is Some ==>
            makes(a, env, CommandView::Psync { replid: a[1], offset: i64_of(a[2])->0 }),
{
    reveal(verdict);
    lemma_called(a);
    assert(named_command_spec(upper_word(a[0]), unnamed(a), env) == psync_spec(unnamed(a))) by {
        lemma_reach_admin(upper_word(a[0]), unnamed(a), env);
        lemma_admin_codes();
    }
}

/// What `REPLCONF` stands for.
pub proof fn law_replconf(a: Seq<Seq<u8>>, env: &ParseEnv)
    requires
        called(a, "REPLCONF"@),
    ensures
        a.len() < 2 ==> refuses(a, env, "wrong number of arguments for 'replconf' command"@),
        a.len() >= 2 ==> makes(a, env, CommandView::Replconf(a.skip(1))),
{
    reveal(verdict);
    lemma_called(a);
    assert(named_command_spec(upper_word(a[0]), unnamed(a), env) == replconf_spec(unnamed(a))) by {
        lemma_reach_admin(upper_word(a[0]), unnamed(a), env);
        lemma_admin_codes();
    }
}

/// What `EVAL` or `EVAL_RO` stands for.
pub proof fn law_eval(a: Seq<Seq<u8>>, env: &ParseEnv)
    requires
        called(a, "EVAL"@) || called(a, "EVAL_RO"@),
    ensures
        a.len() < 3 ==> refuses(a, env, "wrong number of arguments for 'eval' command"@),
        a.len() >= 3 && usize_of(a[2]) is None ==>
            refuses(a, env, "ERR value is not an integer or out of range"@),
        a.len() >= 3 && usize_of(a[2]) is Some && usize_of(a[2])->0 > a.len() - 3 ==>
            refuses(a, env, "ERR Number of keys can't be greater than number of args"@),
        a.len() >= 3 && usize_of(a[2]) is Some && usize_of(a[2])->0 <= a.len() - 3 ==>
            makes(
                a,
                env,
                CommandView::Eval {
                    script: a[1],
                    keys: a.subrange(3, (usize_of(a[2])->0 + 3)),
                    args: a.skip((usize_of(a[2])->0 + 3)),
                },
            ),
{
    reveal(verdict);
    lemma_called(a);
    assert(named_command_spec(upper_word(a[0]), unnamed(a), env) == eval_spec(unnamed(a))) by {
        lemma_reach_admin(upper_word(a[0]), unnamed(a), env);
        lemma_admin_codes();
    }
}

/// What `EVALSHA` or `EVALSHA_RO` stands for.
pub proof fn law_evalsha(a: Seq<Seq<u8>>, env: &ParseEnv)
    requires
        called(a, "EVALSHA"@) || called(a, "EVALSHA_RO"@),
    ensures
        a.len() < 3 ==> refuses(a, env, "wrong number of arguments for 'evalsha' command"@),
        a.len() >= 3 && usize_of(a[2]) is None ==>
            refuses(a, env, "ERR value is not an integer or out of range"@),
        a.len() >= 3 && usize_of(a[2]) is Some && usize_of(a[2])->0 > a.len() - 3 ==>
            refuses(a, env, "ERR Number of keys can't be greater than number of args"@),
        a.len() >= 3 && usize_of(a[2]) is Some && usize_of(a[2])->0 <= a.len() - 3 ==>
            makes(
                a,
                env,
                CommandView::Evalsha {
                    sha: a[1],
                    keys: a.subrange(3, (usize_of(a[2])->0 + 3)),
                    args: a.skip((usize_of(a[2])->0 + 3)),
                },
            ),
{
    reveal(verdict);
    lemma_called(a);
    assert(named_command_spec(upper_word(a[0]), unnamed(a), env) == evalsha_spec(unnamed(a))) by {
        lemma_reach_admin(upper_word(a[0]), unnamed(a), env);
        lemma_admin_codes();
    }
}

/// What `SCRIPT` stands for.
pub proof fn law_script(a: Seq<Seq<u8>>, env: &ParseEnv)
    requires
        called(a, "SCRIPT"@),
    ensures
        a.len() < 2 ==> refuses(a, env, "wrong number of arguments for 'script' command"@),
        a.len() >= 2 && upper_word(a[1]) == "LOAD"@ && a.len() != 3 ==>
            refuses(a, env, "wrong number of arguments for 'script|load' command"@),
        upper_word(a[1]) == "LOAD"@ && a.len() == 3 ==>
            makes(a, env, CommandView::ScriptLoad(a[2])),
        a.len() >= 2 && upper_word(a[1]) == "EXISTS"@ && a.len() < 3 ==>
            refuses(a, env, "wrong number of arguments for 'script|exists' command"@),
        a.len() >= 3 && upper_word(a[1]) == "EXISTS"@ ==>
            makes(a, env, CommandView::ScriptExists(a.skip(2))),
        a.len() >= 2 && upper_word(a[1]) == "FLUSH"@ ==> makes(a, env, CommandView::ScriptFlush),
        a.len() >= 2 && upper_word(a[1]) != "LOAD"@ && upper_word(a[1]) != "EXISTS"@
            && upper_word(a[1]) != "FLUSH"@ ==>
            refuses(
                a,
                env,
                "ERR Unknown SCRIPT subcommand or wrong number of arguments for '"@ + upper_word(a[1]) + "'"@,
            ),
{
    reveal(verdict);
    lemma_called(a);
    assert(named_command_spec(upper_word(a[0]), unnamed(a), env) == script_spec(unnamed(a))) by {
        lemma_reach_admin(upper_word(a[0]), unnamed(a), env);
        lemma_admin_codes();
    }
    reveal(name_code);
    reveal_strlit("EXISTS");
    reveal_strlit("FLUSH");
    reveal_strlit("LOAD");
    assert(name_code("EXISTS"@) == 7624565740859506);
    assert(name_code("FLUSH"@) == 7729362398907705);
    assert(name_code("LOAD"@) == 8390332699476704);
}

/// What `TIER` stands for.
pub proof fn law_tier(a: Seq<Seq<u8>>, env: &ParseEnv)
    requires
        called(a, "TIER"@),
    ensures
        a.len() < 2 ==> refuses(a, env, "wrong number of arguments for 'tier' command"@),
        a.len() >= 2 && upper_word(a[1]) == "SPILL"@ && a.len() != 3 ==>
            refuses(a, env, "wrong number of arguments for 'tier spill' command"@),
        upper_word(a[1]) == "SPILL"@ && a.len() == 3 ==>
            makes(a, env, CommandView::Tier(TierSubcommandView::Spill(a[2]))),
        a.len() >= 2 && upper_word(a[1]) != "SPILL"@
            && (upper_word(a[1]) == "LOAD"@ || upper_word(a[1]) == "PROMOTE"@) && a.len() != 3 ==>
            refuses(a, env, "wrong number of arguments for 'tier load' command"@),
        upper_word(a[1]) != "SPILL"@
            && (upper_word(a[1]) == "LOAD"@ || upper_word(a[1]) == "PROMOTE"@) && a.len() == 3 ==>
            makes(a, env, CommandView::Tier(TierSubcommandView::Load(a[2]))),
        a.len() >= 2 && upper_word(a[1]) == "COOL"@ && a.len() != 3 ==>
            refuses(a, env, "wrong number of arguments for 'tier cool' command"@),
        upper_word(a[1]) == "COOL"@ && a.len() == 3 ==>
            makes(a, env, CommandView::Tier(TierSubcommandView::Cool(a[2]))),
        upper_word(a[1]) == "DECOMMIT"@ && a.len() == 2 ==>
            makes(a, env, CommandView::Tier(TierSubcommandView::Decommit(None))),
        upper_word(a[1]) == "DECOMMIT"@ && a.len() == 3 ==>
            makes(a, env, CommandView::Tier(TierSubcommandView::Decommit(Some(a[2])))),
        a.len() >= 2 && upper_word(a[1]) == "DECOMMIT"@ && a.len() != 2 && a.len() != 3 ==>
            refuses(a, env, "wrong number of arguments for 'tier decommit' command"@),
        a.len() >= 2 && upper_word(a[1]) == "INFO"@ ==>
            makes(a, env, CommandView::Tier(TierSubcommandView::Info)),
        a.len() >= 2 && upper_word(a[1]) == "SPILLALL"@ ==>
            makes(a, env, CommandView::Tier(TierSubcommandView::SpillAll)),
        a.len() >= 2 && upper_word(a[1]) == "GC"@ ==>
            makes(a, env, CommandView::Tier(TierSubcommandView::Gc)),
        a.len() >= 2 && upper_word(a[1]) != "SPILL"@ && upper_word(a[1]) != "LOAD"@
            && upper_word(a[1]) != "PROMOTE"@ && upper_word(a[1]) != "COOL"@
            && upper_word(a[1]) != "DECOMMIT"@ && upper_word(a[1]) != "INFO"@
            && upper_word(a[1]) != "SPILLALL"@ && upper_word(a[1]) != "GC"@
            && (upper_word(a[1]) == "SNAPSHOT"@ || upper_word(a[1]) == "BACKUP"@) && a.len() < 3 ==>
            refuses(a, env, "wrong number of arguments for 'tier snapshot' command"@),
        a.len() >= 3 && upper_word(a[1]) != "SPILL"@ && upper_word(a[1]) != "LOAD"@
            && upper_word(a[1]) != "PROMOTE"@ && upper_word(a[1]) != "COOL"@
            && upper_word(a[1]) != "DECOMMIT"@ && upper_word(a[1]) != "INFO"@
            && upper_word(a[1]) != "SPILLALL"@ && upper_word(a[1]) != "GC"@
            && (upper_word(a[1]) == "SNAPSHOT"@ || upper_word(a[1]) == "BACKUP"@) ==>
            makes(a, env, CommandView::Tier(TierSubcommandView::Snapshot(lossy_text(a[2])))),
        a.len() >= 2 && upper_word(a[1]) != "SPILL"@ && upper_word(a[1]) != "LOAD"@
            && upper_word(a[1]) != "PROMOTE"@ && upper_word(a[1]) != "COOL"@
            && upper_word(a[1]) != "DECOMMIT"@ && upper_word(a[1]) != "INFO"@
            && upper_word(a[1]) != "SPILLALL"@ && upper_word(a[1]) != "GC"@
            && upper_word(a[1]) != "SNAPSHOT"@ && upper_word(a[1]) != "BACKUP"@ ==>
            refuses(
                a,
                env,
                "ERR unknown subcommand '"@ + upper_word(a[1]) + "'. Try TIER SPILL, TIER COOL, TIER DECOMMIT, TIER LOAD, TIER INFO, TIER SPILLALL, TIER GC, TIER SNAPSHOT."@,
            ),
{
    reveal(verdict);
    lemma_called(a);
    assert(named_command_spec(upper_word(a[0]), unnamed(a), env) == tier_spec(unnamed(a))) by {
        lemma_reach_admin(upper_word(a[0]), unnamed(a), env);
        lemma_admin_codes();
    }
    reveal(name_code);
    reveal_strlit("BACKUP");
    reveal_strlit("COOL");
    reveal_strlit("DECOMMIT");
    reveal_strlit("GC");
    reveal_strlit("INFO");
    reveal_strlit("LOAD");
    reveal_strlit("PROMOTE");
    reveal_strlit("SNAPSHOT");
    reveal_strlit("SPILL");
    reveal_strlit("SPILLALL");
    assert(name_code("BACKUP"@) == 7284820386337106);
    assert(name_code("COOL"@) == 7400785656609504);
    assert(name_code("DECOMMIT"@) == 7506447389729308);
    assert(name_code("GC"@) == 7835308839910402);
    assert(name_code("INFO"@) == 8060068169479804);
    assert(name_code("LOAD"@) == 8390332699476704);
    assert(name_code("PROMOTE"@) == 8831441491259107);
    assert(name_code("SNAPSHOT"@) == 9159581947066408);
    assert(name_code("SPILL"@) == 9160433757703305);
    assert(name_code("SPILLALL"@) == 9160434183686508);
}

/// What `DFLYCLUSTER` stands for, up to its options.
pub proof fn law_dflycluster(a: Seq<Seq<u8>>, env: &ParseEnv)
    requires
        called(a, "DFLYCLUSTER"@),
    ensures
        a.len() < 2 ==> refuses(a, env, "ERR wrong number of arguments for 'dflycluster' command"@),
        a.len() >= 2 && upper_word(a[1]) == "MYID"@ ==>
            makes(a, env, CommandView::DflyCluster(DflyClusterSubcommandView::MyId)),
        a.len() >= 2 && upper_word(a[1]) == "CONFIG"@ && a.len() != 3 ==>
            refuses(a, env, "ERR wrong number of arguments for 'dflycluster config' command"@),
        upper_word(a[1]) == "CONFIG"@ && a.len() == 3 ==>
            makes(
                a,
                env,
                CommandView::DflyCluster(DflyClusterSubcommandView::Config(lossy_text(a[2]))),
            ),
        a.len() >= 2 && upper_word(a[1]) == "GETSLOTINFO"@
            && (a.len() < 4 || !spells(a[2], "SLOTS"@)) ==>
            refuses(
                a,
                env,
                "ERR syntax error, expected DFLYCLUSTER GETSLOTINFO SLOTS slot1 [slot2 ...]"@,
            ),
        a.len() >= 2 && upper_word(a[1]) == "FLUSHSLOTS"@
            && (a.len() < 4 || (a.len() - 2) % 2 != 0) ==>
            refuses(
                a,
                env,
                "ERR syntax error, expected DFLYCLUSTER FLUSHSLOTS start end [start end ...]"@,
            ),
        a.len() >= 2 && upper_word(a[1]) == "SLOT-MIGRATION-STATUS"@ ==>
            makes(a, env, CommandView::DflyCluster(DflyClusterSubcommandView::SlotMigrationStatus)),
        a.len() >= 2 && upper_word(a[1]) != "MYID"@ && upper_word(a[1]) != "CONFIG"@
            && upper_word(a[1]) != "GETSLOTINFO"@ && upper_word(a[1]) != "FLUSHSLOTS"@
            && upper_word(a[1]) != "SLOT-MIGRATION-STATUS"@ ==>
            refuses(a, env, "ERR unknown subcommand '"@ + upper_word(a[1]) + "' for DFLYCLUSTER"@),
{
    reveal(verdict);
    lemma_called(a);
    assert(named_command_spec(
        upper_word(a[0]),
        unnamed(a),
        env,
    ) == dflycluster_spec(unnamed(a))) by {
        lemma_reach_admin(upper_word(a[0]), unnamed(a), env);
        lemma_admin_codes();
    }
    reveal(name_code);
    reveal_strlit("CONFIG");
    reveal_strlit("FLUSHSLOTS");
    reveal_strlit("GETSLOTINFO");
    reveal_strlit("MYID");
    reveal_strlit("SLOT-MIGRATION-STATUS");
    assert(name_code("CONFIG"@) == 7400776055431006);
    assert(name_code("FLUSHSLOTS"@) == 7729362942881510);
    assert(name_code("GETSLOTINFO"@) == 7836307601979011);
    assert(name_code("MYID"@) == 8504578829756104);
    assert(name_code("SLOT-MIGRATION-STATUS"@) == 9158729697416421);
}

/// What `DFLY` stands for.
pub proof fn law_dfly(a: Seq<Seq<u8>>, env: &ParseEnv)
    requires
        called(a, "DFLY"@),
    ensures
        a.len() < 2 ==> refuses(a, env, "ERR wrong number of arguments for 'dfly' command"@),
        a.len() >= 2 && upper_word(a[1]) == "FLOW"@ && a.len() < 5 ==>
            refuses(a, env, "ERR wrong number of arguments for 'dfly flow' command"@),
        a.len() >= 5 && upper_word(a[1]) == "FLOW"@ && usize_of(a[4]) is None ==>
            refuses(a, env, "ERR invalid shard id"@),
        a.len() >= 6 && upper_word(a[1]) == "FLOW"@ && usize_of(a[4]) is Some ==>
            makes(
                a,
                env,
                CommandView::DflyFlow {
                    master_replid: lossy_text(a[2]),
                    sync_id: lossy_text(a[3]),
                    shard_id: usize_of(a[4])->0,
                    lsn: u64_of(a[5]),
                },
            ),
        a.len() >= 5 && upper_word(a[1]) == "FLOW"@ && usize_of(a[4]) is Some && a.len() <= 5 ==>
            makes(
                a,
                env,
                CommandView::DflyFlow {
                    master_replid: lossy_text(a[2]),
                    sync_id: lossy_text(a[3]),
                    shard_id: usize_of(a[4])->0,
                    lsn: None,
                },
            ),
        a.len() >= 2 && upper_word(a[1]) != "FLOW"@ ==>
            makes(a, env, CommandView::Unknown("DFLY "@ + upper_word(a[1]))),
{
    reveal(verdict);
    lemma_called(a);
    assert(named_command_spec(upper_word(a[0]), unnamed(a), env) == dfly_spec(unnamed(a))) by {
        lemma_reach_admin(upper_word(a[0]), unnamed(a), env);
        lemma_admin_codes();
    }
}

/// What `DFLYMIGRATE` stands for, up to its options.
pub proof fn law_dflymigrate(a: Seq<Seq<u8>>, env: &ParseEnv)
    requires
        called(a, "DFLYMIGRATE"@),
    ensures
        a.len() < 2 ==> refuses(a, env, "ERR wrong number of arguments for 'dflymigrate' command"@),
        a.len() >= 2 && upper_word(a[1]) == "INIT"@ && a.len() < 5 ==>
            refuses(a, env, "ERR wrong number of arguments for 'dflymigrate init' command"@),
        a.len() >= 5 && upper_word(a[1]) == "INIT"@ && usize_of(a[3]) is None ==>
            refuses(a, env, "ERR Invalid num_shards"@),
        a.len() >= 2 && upper_word(a[1]) == "FLOW"@ && a.len() != 4 ==>
            refuses(a, env, "ERR wrong number of arguments for 'dflymigrate flow' command"@),
        upper_word(a[1]) == "FLOW"@ && a.len() == 4 && u64_of(a[3]) is None ==>
            refuses(a, env, "ERR Invalid flow_id"@),
        upper_word(a[1]) == "FLOW"@ && a.len() == 4 && u64_of(a[3]) is Some ==>
            makes(
                a,
                env,
                CommandView::DflyMigrate(
                    DflyMigrateSubcommandView::Flow {
                        source_id: lossy_text(a[2]),
                        flow_id: u64_of(a[3])->0,
                    },
                ),
            ),
        a.len() >= 2 && upper_word(a[1]) == "ACK"@ && a.len() != 3 ==>
            refuses(a, env, "ERR wrong number of arguments for 'dflymigrate ack' command"@),
        upper_word(a[1]) == "ACK"@ && a.len() == 3 && u64_of(a[2]) is None ==>
            refuses(a, env, "ERR Invalid flow_id"@),
        upper_word(a[1]) == "ACK"@ && a.len() == 3 && u64_of(a[2]) is Some ==>
            makes(
                a,
                env,
                CommandView::DflyMigrate(
                    DflyMigrateSubcommandView::Ack { flow_id: u64_of(a[2])->0 },
                ),
            ),
        a.len() >= 2 && upper_word(a[1]) != "INIT"@ && upper_word(a[1]) != "FLOW"@
            && upper_word(a[1]) != "ACK"@ ==>
            refuses(a, env, "ERR unknown subcommand '"@ + upper_word(a[1]) + "' for DFLYMIGRATE"@),
{
    reveal(verdict);
    lemma_called(a);
    assert(named_command_spec(
        upper_word(a[0]),
        unnamed(a),
        env,
    ) == dflymigrate_spec(unnamed(a))) by {
        lemma_reach_admin(upper_word(a[0]), unnamed(a), env);
        lemma_admin_codes();
    }
    reveal(name_code);
    reveal_strlit("ACK");
    reveal_strlit("FLOW");
    reveal_strlit("INIT");
    assert(name_code("ACK"@) == 7175601863148903);
    assert(name_code("FLOW"@) == 7729369109690804);
    assert(name_code("INIT"@) == 8060076558164604);
}

/// What `CONFIG` stands for, up to its options.
pub proof fn law_config(a: Seq<Seq<u8>>, env: &ParseEnv)
    requires
        called(a, "CONFIG"@),
    ensures
        a.len() < 2 ==> refuses(a, env, "wrong number of arguments for 'config' command"@),
        a.len() >= 2 && upper_word(a[1]) == "GET"@ && a.len() != 3 ==>
            refuses(a, env, "wrong number of arguments for 'config get' command"@),
        upper_word(a[1]) == "GET"@ && a.len() == 3 ==> makes(a, env, CommandView::ConfigGet(a[2])),
        a.len() >= 2 && upper_word(a[1]) == "SET"@ && a.len() < 4 ==>
            refuses(a, env, "wrong number of arguments for 'config set' command"@),
        a.len() >= 2 && upper_word(a[1]) == "RESETSTAT"@ ==>
            makes(a, env, CommandView::ConfigSet(encode_utf8("resetstat"@), encode_utf8(""@))),
        a.len() >= 2 && upper_word(a[1]) == "REWRITE"@ ==>
            makes(a, env, CommandView::ConfigSet(encode_utf8("rewrite"@), encode_utf8(""@))),
        a.len() >= 2 && upper_word(a[1]) != "GET"@ && upper_word(a[1]) != "SET"@
            && upper_word(a[1]) != "RESETSTAT"@ && upper_word(a[1]) != "REWRITE"@ ==>
            refuses(a, env, "ERR unknown subcommand '"@ + upper_word(a[1]) + "' for CONFIG"@),
{
    reveal(verdict);
    lemma_called(a);
    assert(named_command_spec(upper_word(a[0]), unnamed(a), env) == config_spec(unnamed(a))) by {
        lemma_reach_admin(upper_word(a[0]), unnamed(a), env);
        lemma_admin_codes();
    }
    reveal(name_code);
    reveal_strlit("GET");
    reveal_strlit("RESETSTAT");
    reveal_strlit("REWRITE");
    reveal_strlit("SET");
    assert(name_code("GET"@) == 7836167833325503);
    assert(name_code("RESETSTAT"@) == 9045746930517209);
    assert(name_code("REWRITE"@) == 9045768747936907);
    assert(name_code("SET"@) == 9155581786657903);
}

/// What `SHUTDOWN` stands for.
pub proof fn law_shutdown(a: Seq<Seq<u8>>, env: &ParseEnv)
    requires
        called(a, "SHUTDOWN"@),
    ensures
        a.len() >= 2 && upper_word(a[1]) == "SAVE"@ ==>
            makes(a, env, CommandView::Shutdown { save: Some(true) }),
        a.len() >= 2 && upper_word(a[1]) == "NOSAVE"@ ==>
            makes(a, env, CommandView::Shutdown { save: Some(false) }),
        a.len() >= 2 && upper_word(a[1]) != "SAVE"@ && upper_word(a[1]) != "NOSAVE"@ ==>
            makes(a, env, CommandView::Shutdown { save: None }),
        a.len() <= 1 ==> makes(a, env, CommandView::Shutdown { save: None }),
{
    reveal(verdict);
    lemma_called(a);
    assert(named_command_spec(upper_word(a[0]), unnamed(a), env) == shutdown_spec(unnamed(a))) by {
        lemma_reach_admin(upper_word(a[0]), unnamed(a), env);
        lemma_admin_codes();
    }
    reveal(name_code);
    reveal_strlit("NOSAVE");
    reveal_strlit("SAVE");
    assert(name_code("NOSAVE"@) == 8610230444601706);
    assert(name_code("SAVE"@) == 9153979562963304);
}

} // verus!
