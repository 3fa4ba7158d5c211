//! What the commands on connections, vectors and modules stand for.
use vstd::prelude::*;

use crate::build::named_command_spec;
use crate::build::modules::{
    action_of, crdt_del_spec, crdt_dump_spec, crdt_gc_spec, crdt_get_spec, crdt_incrby_spec,
    crdt_merge_spec, crdt_sadd_spec, crdt_set_spec, crdt_smembers_spec, crdt_srem_spec, echo_spec,
    fcall_spec, function_spec, reset_spec, time_spec, vadd_spec, vdel_spec, vinfo_spec,
    vquery_spec, vsim_spec, xdp_info_spec, xdp_inject_spec, xdp_packet_spec, xdp_rule_spec,
    xdp_socket_spec, xdp_stats_spec,
};
use crate::build::naming::{lemma_modules_codes, lemma_reach_modules, name_code};
use crate::command::CommandView;
use crate::numbers::{i64_of, u32_of, u64_of, usize_of};
use crate::readings::{ParseEnv, metric, metric_of};
use crate::resp::unnamed;
use crate::text::{lossy_text, upper_word};
use super::{called, lemma_called, makes, refuses, verdict};

verus! {

/// What `RESET` stands for.
pub proof fn law_reset(a: Seq<Seq<u8>>, env: &ParseEnv)
    requires
        called(a, "RESET"@),
    ensures
        makes(a, env, CommandView::Reset),
{
    reveal(verdict);
    lemma_called(a);
    assert(named_command_spec(upper_word(a[0]), unnamed(a), env) == reset_spec(unnamed(a))) by {
        lemma_reach_modules(upper_word(a[0]), unnamed(a), env);
        lemma_modules_codes();
    }
}

/// What `TIME` stands for.
pub proof fn law_time(a: Seq<Seq<u8>>, env: &ParseEnv)
    requires
        called(a, "TIME"@),
    ensures
        makes(a, env, CommandView::Time),
{
    reveal(verdict);
    lemma_called(a);
    assert(named_command_spec(upper_word(a[0]), unnamed(a), env) == time_spec(unnamed(a))) by {
        lemma_reach_modules(upper_word(a[0]), unnamed(a), env);
        lemma_modules_codes();
    }
}

/// What `ECHO` stands for.
pub proof fn law_echo(a: Seq<Seq<u8>>, env: &ParseEnv)
    requires
        called(a, "ECHO"@),
    ensures
        a.len() != 2 ==> refuses(a, env, "wrong number of arguments for 'echo' command"@),
        a.len() == 2 ==> makes(a, env, CommandView::Echo(a[1])),
{
    reveal(verdict);
    lemma_called(a);
    assert(named_command_spec(upper_word(a[0]), unnamed(a), env) == echo_spec(unnamed(a))) by {
        lemma_reach_modules(upper_word(a[0]), unnamed(a), env);
        lemma_modules_codes();
    }
}

/// What `VADD` stands for, up to its options.
pub proof fn law_vadd(a: Seq<Seq<u8>>, env: &ParseEnv)
    requires
        called(a, "VADD"@),
    ensures
        a.len() < 4 ==> refuses(a, env, "wrong number of arguments for 'vadd' command"@),
{
    reveal(verdict);
    lemma_called(a);
    assert(named_command_spec(upper_word(a[0]), unnamed(a), env) == vadd_spec(unnamed(a), env)) by {
        lemma_reach_modules(upper_word(a[0]), unnamed(a), env);
        lemma_modules_codes();
    }
}

/// What `VQUERY` stands for, up to its options.
pub proof fn law_vquery(a: Seq<Seq<u8>>, env: &ParseEnv)
    requires
        called(a, "VQUERY"@),
    ensures
        a.len() < 4 ==> refuses(a, env, "wrong number of arguments for 'vquery' command"@),
        a.len() >= 4 && usize_of(a[2]) is None ==>
            refuses(a, env, "value is not an integer or out of range"@),
{
    reveal(verdict);
    lemma_called(a);
    assert(named_command_spec(
        upper_word(a[0]),
        unnamed(a),
        env,
    ) == vquery_spec(unnamed(a), env)) by {
        lemma_reach_modules(upper_word(a[0]), unnamed(a), env);
        lemma_modules_codes();
    }
}

/// What `CRDT.SET` stands for.
pub proof fn law_crdt_set(a: Seq<Seq<u8>>, env: &ParseEnv)
    requires
        called(a, "CRDT.SET"@),
    ensures
        a.len() != 3 ==> refuses(a, env, "wrong number of arguments for 'crdt.set' command"@),
        a.len() == 3 ==> makes(a, env, CommandView::CrdtSet { key: a[1], val: a[2] }),
{
    reveal(verdict);
    lemma_called(a);
    assert(named_command_spec(upper_word(a[0]), unnamed(a), env) == crdt_set_spec(unnamed(a))) by {
        lemma_reach_modules(upper_word(a[0]), unnamed(a), env);
        lemma_modules_codes();
    }
}

/// What `CRDT.GET` stands for.
pub proof fn law_crdt_get(a: Seq<Seq<u8>>, env: &ParseEnv)
    requires
        called(a, "CRDT.GET"@),
    ensures
        a.len() != 2 ==> refuses(a, env, "wrong number of arguments for 'crdt.get' command"@),
        a.len() == 2 ==> makes(a, env, CommandView::CrdtGet(a[1])),
{
    reveal(verdict);
    lemma_called(a);
    assert(named_command_spec(upper_word(a[0]), unnamed(a), env) == crdt_get_spec(unnamed(a))) by {
        lemma_reach_modules(upper_word(a[0]), unnamed(a), env);
        lemma_modules_codes();
    }
}

/// What `CRDT.DEL` stands for.
pub proof fn law_crdt_del(a: Seq<Seq<u8>>, env: &ParseEnv)
    requires
        called(a, "CRDT.DEL"@),
    ensures
        a.len() != 2 ==> refuses(a, env, "wrong number of arguments for 'crdt.del' command"@),
        a.len() == 2 ==> makes(a, env, CommandView::CrdtDel(a[1])),
{
    reveal(verdict);
    lemma_called(a);
    assert(named_command_spec(upper_word(a[0]), unnamed(a), env) == crdt_del_spec(unnamed(a))) by {
        lemma_reach_modules(upper_word(a[0]), unnamed(a), env);
        lemma_modules_codes();
    }
}

/// What `CRDT.SMEMBERS` stands for.
pub proof fn law_crdt_smembers(a: Seq<Seq<u8>>, env: &ParseEnv)
    requires
        called(a, "CRDT.SMEMBERS"@),
    ensures
        a.len() != 2 ==> refuses(a, env, "wrong number of arguments for 'crdt.smembers' command"@),
        a.len() == 2 ==> makes(a, env, CommandView::CrdtSmembers(a[1])),
{
    reveal(verdict);
    lemma_called(a);
    assert(named_command_spec(
        upper_word(a[0]),
        unnamed(a),
        env,
    ) == crdt_smembers_spec(unnamed(a))) by {
        lemma_reach_modules(upper_word(a[0]), unnamed(a), env);
        lemma_modules_codes();
    }
}

/// What `CRDT.MERGE` stands for.
pub proof fn law_crdt_merge(a: Seq<Seq<u8>>, env: &ParseEnv)
    requires
        called(a, "CRDT.MERGE"@),
    ensures
        a.len() != 2 ==> refuses(a, env, "wrong number of arguments for 'crdt.merge' command"@),
        a.len() == 2 ==> makes(a, env, CommandView::CrdtMerge(a[1])),
{
    reveal(verdict);
    lemma_called(a);
    assert(named_command_spec(
        upper_word(a[0]),
        unnamed(a),
        env,
    ) == crdt_merge_spec(unnamed(a))) by {
        lemma_reach_modules(upper_word(a[0]), unnamed(a), env);
        lemma_modules_codes();
    }
}

/// What `CRDT.INCRBY` stands for.
pub proof fn law_crdt_incrby(a: Seq<Seq<u8>>, env: &ParseEnv)
    requires
        called(a, "CRDT.INCRBY"@),
    ensures
        a.len() != 3 ==> refuses(a, env, "wrong number of arguments for 'crdt.incrby' command"@),
        a.len() == 3 && i64_of(a[2]) is None ==>
            refuses(a, env, "value is not an integer or out of range"@),
        a.len() == 3 && i64_of(a[2]) is Some ==>
            makes(a, env, CommandView::CrdtIncrby { key: a[1], delta: i64_of(a[2])->0 }),
{
    reveal(verdict);
    lemma_called(a);
    assert(named_command_spec(
        upper_word(a[0]),
        unnamed(a),
        env,
    ) == crdt_incrby_spec(unnamed(a))) by {
        lemma_reach_modules(upper_word(a[0]), unnamed(a), env);
        lemma_modules_codes();
    }
}

/// What `CRDT.SADD` stands for.
pub proof fn law_crdt_sadd(a: Seq<Seq<u8>>, env: &ParseEnv)
    requires
        called(a, "CRDT.SADD"@),
    ensures
        a.len() < 3 ==> refuses(a, env, "wrong number of arguments for 'crdt.sadd' command"@),
        a.len() >= 3 ==> makes(a, env, CommandView::CrdtSadd { key: a[1], member: a[2] }),
{
    reveal(verdict);
    lemma_called(a);
    assert(named_command_spec(upper_word(a[0]), unnamed(a), env) == crdt_sadd_spec(unnamed(a))) by {
        lemma_reach_modules(upper_word(a[0]), unnamed(a), env);
        lemma_modules_codes();
    }
}

/// What `CRDT.SREM` stands for.
pub proof fn law_crdt_srem(a: Seq<Seq<u8>>, env: &ParseEnv)
    requires
        called(a, "CRDT.SREM"@),
    ensures
        a.len() != 3 ==> refuses(a, env, "wrong number of arguments for 'crdt.srem' command"@),
        a.len() == 3 ==> makes(a, env, CommandView::CrdtSrem { key: a[1], member: a[2] }),
{
    reveal(verdict);
    lemma_called(a);
    assert(named_command_spec(upper_word(a[0]), unnamed(a), env) == crdt_srem_spec(unnamed(a))) by {
        lemma_reach_modules(upper_word(a[0]), unnamed(a), env);
        lemma_modules_codes();
    }
}

/// What `CRDT.DUMP` stands for.
pub proof fn law_crdt_dump(a: Seq<Seq<u8>>, env: &ParseEnv)
    requires
        called(a, "CRDT.DUMP"@),
    ensures
        makes(a, env, CommandView::CrdtDump),
{
    reveal(verdict);
    lemma_called(a);
    assert(named_command_spec(upper_word(a[0]), unnamed(a), env) == crdt_dump_spec(unnamed(a))) by {
        lemma_reach_modules(upper_word(a[0]), unnamed(a), env);
        lemma_modules_codes();
    }
}

/// What `CRDT.GC` stands for.
pub proof fn law_crdt_gc(a: Seq<Seq<u8>>, env: &ParseEnv)
    requires
        called(a, "CRDT.GC"@),
    ensures
        a.len() >= 2 && u64_of(a[1]) is None ==>
            refuses(a, env, "value is not an integer or out of range"@),
        a.len() >= 2 && u64_of(a[1]) is Some ==>
            makes(a, env, CommandView::CrdtGc(Some(u64_of(a[1])->0))),
        a.len() <= 1 ==> makes(a, env, CommandView::CrdtGc(None)),
{
    reveal(verdict);
    lemma_called(a);
    assert(named_command_spec(upper_word(a[0]), unnamed(a), env) == crdt_gc_spec(unnamed(a))) by {
        lemma_reach_modules(upper_word(a[0]), unnamed(a), env);
        lemma_modules_codes();
    }
}

/// What `VSIM` stands for.
pub proof fn law_vsim(a: Seq<Seq<u8>>, env: &ParseEnv)
    requires
        called(a, "VSIM"@),
    ensures
        a.len() < 4 ==> refuses(a, env, "wrong number of arguments for 'vsim' command"@),
        a.len() >= 5 ==>
            makes(
                a,
                env,
                CommandView::Vsim {
                    index: lossy_text(a[1]),
                    k1: a[2],
                    k2: a[3],
                    metric: metric_of(upper_word(a[4])),
                },
            ),
        a.len() >= 4 && a.len() <= 4 ==>
            makes(
                a,
                env,
                CommandView::Vsim { index: lossy_text(a[1]), k1: a[2], k2: a[3], metric: None },
            ),
{
    reveal(verdict);
    lemma_called(a);
    assert(named_command_spec(upper_word(a[0]), unnamed(a), env) == vsim_spec(unnamed(a))) by {
        lemma_reach_modules(upper_word(a[0]), unnamed(a), env);
        lemma_modules_codes();
    }
}

/// What `VDEL` stands for.
pub proof fn law_vdel(a: Seq<Seq<u8>>, env: &ParseEnv)
    requires
        called(a, "VDEL"@),
    ensures
        a.len() != 3 ==> refuses(a, env, "wrong number of arguments for 'vdel' command"@),
        a.len() == 3 ==> makes(a, env, CommandView::Vdel { index: lossy_text(a[1]), key: a[2] }),
{
    reveal(verdict);
    lemma_called(a);
    assert(named_command_spec(upper_word(a[0]), unnamed(a), env) == vdel_spec(unnamed(a))) by {
        lemma_reach_modules(upper_word(a[0]), unnamed(a), env);
        lemma_modules_codes();
    }
}

/// What `VINFO` stands for.
pub proof fn law_vinfo(a: Seq<Seq<u8>>, env: &ParseEnv)
    requires
        called(a, "VINFO"@),
    ensures
        a.len() != 2 ==> refuses(a, env, "wrong number of arguments for 'vinfo' command"@),
        a.len() == 2 ==> makes(a, env, CommandView::Vinfo(lossy_text(a[1]))),
{
    reveal(verdict);
    lemma_called(a);
    assert(named_command_spec(upper_word(a[0]), unnamed(a), env) == vinfo_spec(unnamed(a))) by {
        lemma_reach_modules(upper_word(a[0]), unnamed(a), env);
        lemma_modules_codes();
    }
}

/// What `FUNCTION` stands for.
pub proof fn law_function(a: Seq<Seq<u8>>, env: &ParseEnv)
    requires
        called(a, "FUNCTION"@),
    ensures
        a.len() < 2 ==> refuses(a, env, "wrong number of arguments for 'function' command"@),
        a.len() >= 2 && upper_word(a[1]) == "LOAD"@ && a.len() < 3 ==>
            refuses(a, env, "wrong number of arguments for 'function load' command"@),
        a.len() >= 4 && upper_word(a[1]) == "LOAD"@ && upper_word(a[2]) == "REPLACE"@ ==>
            makes(a, env, CommandView::FunctionLoad { replace: true, code: a[3] }),
        a.len() >= 3 && upper_word(a[1]) == "LOAD"@
            && ((a.len() < 4 || upper_word(a[2]) != "REPLACE"@)) ==>
            makes(a, env, CommandView::FunctionLoad { replace: false, code: a[2] }),
        a.len() >= 2 && upper_word(a[1]) == "LIST"@ ==> makes(a, env, CommandView::FunctionList),
        a.len() >= 2 && upper_word(a[1]) == "FLUSH"@ ==> makes(a, env, CommandView::FunctionFlush),
        a.len() >= 2 && upper_word(a[1]) == "DELETE"@ && a.len() != 3 ==>
            refuses(a, env, "wrong number of arguments for 'function delete' command"@),
        upper_word(a[1]) == "DELETE"@ && a.len() == 3 ==>
            makes(a, env, CommandView::FunctionDelete(lossy_text(a[2]))),
        a.len() >= 2 && upper_word(a[1]) != "LOAD"@ && upper_word(a[1]) != "LIST"@
            && upper_word(a[1]) != "FLUSH"@ && upper_word(a[1]) != "DELETE"@ ==>
            makes(a, env, CommandView::Unknown("FUNCTION "@ + upper_word(a[1]))),
{
    reveal(verdict);
    lemma_called(a);
    assert(named_command_spec(upper_word(a[0]), unnamed(a), env) == function_spec(unnamed(a))) by {
        lemma_reach_modules(upper_word(a[0]), unnamed(a), env);
        lemma_modules_codes();
    }
    reveal(name_code);
    reveal_strlit("DELETE");
    reveal_strlit("FLUSH");
    reveal_strlit("LIST");
    reveal_strlit("LOAD");
    reveal_strlit("REPLACE");
    assert(name_code("DELETE"@) == 7506430560365306);
    assert(name_code("FLUSH"@) == 7729362398907705);
    assert(name_code("LIST"@) == 8387782563104904);
    assert(name_code("LOAD"@) == 8390332699476704);
    assert(name_code("REPLACE"@) == 9045758569760107);
}

/// What `FCALL` or `FCALL_RO` stands for.
pub proof fn law_fcall(a: Seq<Seq<u8>>, env: &ParseEnv)
    requires
        called(a, "FCALL"@) || called(a, "FCALL_RO"@),
    ensures
        a.len() < 3 ==> refuses(a, env, "wrong number of arguments for 'fcall' command"@),
        a.len() >= 3 && usize_of(a[2]) is None ==>
            refuses(a, env, "value is not an integer or out of range"@),
        a.len() >= 3 && usize_of(a[2]) is Some && usize_of(a[2])->0 > a.len() - 3 ==>
            refuses(a, env, "Number of keys can't be greater than number of args"@),
        a.len() >= 3 && usize_of(a[2]) is Some && usize_of(a[2])->0 <= a.len() - 3 ==>
            makes(
                a,
                env,
                CommandView::Fcall {
                    function: lossy_text(a[1]),
                    keys: a.subrange(3, (usize_of(a[2])->0 + 3)),
                    args: a.skip((usize_of(a[2])->0 + 3)),
                },
            ),
{
    reveal(verdict);
    lemma_called(a);
    assert(named_command_spec(upper_word(a[0]), unnamed(a), env) == fcall_spec(unnamed(a))) by {
        lemma_reach_modules(upper_word(a[0]), unnamed(a), env);
        lemma_modules_codes();
    }
}

/// What `XDP.INFO` stands for.
pub proof fn law_xdp_info(a: Seq<Seq<u8>>, env: &ParseEnv)
    requires
        called(a, "XDP.INFO"@),
    ensures
        makes(a, env, CommandView::XdpInfo),
{
    reveal(verdict);
    lemma_called(a);
    assert(named_command_spec(upper_word(a[0]), unnamed(a), env) == xdp_info_spec(unnamed(a))) by {
        lemma_reach_modules(upper_word(a[0]), unnamed(a), env);
        lemma_modules_codes();
    }
}

/// What `XDP.RULE` stands for.
pub proof fn law_xdp_rule(a: Seq<Seq<u8>>, env: &ParseEnv)
    requires
        called(a, "XDP.RULE"@),
    ensures
        a.len() < 2 ==> refuses(a, env, "wrong number of arguments for 'xdp.rule' command"@),
        a.len() >= 2 && upper_word(a[1]) == "ADD"@ && a.len() < 4 ==>
            refuses(a, env, "wrong number of arguments for 'xdp.rule add' command"@),
        a.len() >= 4 && upper_word(a[1]) == "ADD"@ && action_of(upper_word(a[2])) is Some ==>
            makes(
                a,
                env,
                CommandView::XdpRuleAdd {
                    action: action_of(upper_word(a[2]))->0,
                    cidr: lossy_text(a[3]),
                },
            ),
        a.len() >= 4 && upper_word(a[1]) == "ADD"@ && action_of(upper_word(a[2])) is None ==>
            refuses(a, env, "Unknown XDP action: "@ + upper_word(a[2]) + ""@),
        a.len() >= 2 && upper_word(a[1]) == "DEL"@ && a.len() != 3 ==>
            refuses(a, env, "wrong number of arguments for 'xdp.rule del' command"@),
        upper_word(a[1]) == "DEL"@ && a.len() == 3 && u32_of(a[2]) is None ==>
            refuses(a, env, "Invalid rule ID"@),
        upper_word(a[1]) == "DEL"@ && a.len() == 3 && u32_of(a[2]) is Some ==>
            makes(a, env, CommandView::XdpRuleDel(u32_of(a[2])->0)),
        a.len() >= 2 && upper_word(a[1]) == "LIST"@ ==> makes(a, env, CommandView::XdpRuleList),
        a.len() >= 2 && upper_word(a[1]) != "ADD"@ && upper_word(a[1]) != "DEL"@
            && upper_word(a[1]) != "LIST"@ ==>
            refuses(a, env, "Unknown xdp.rule subcommand: "@ + upper_word(a[1]) + ""@),
{
    reveal(verdict);
    lemma_called(a);
    assert(named_command_spec(upper_word(a[0]), unnamed(a), env) == xdp_rule_spec(unnamed(a))) by {
        lemma_reach_modules(upper_word(a[0]), unnamed(a), env);
        lemma_modules_codes();
    }
    reveal(name_code);
    reveal_strlit("ADD");
    reveal_strlit("DEL");
    reveal_strlit("LIST");
    assert(name_code("ADD"@) == 7176031359904103);
    assert(name_code("DEL"@) == 7506314344992403);
    assert(name_code("LIST"@) == 8387782563104904);
}

/// What `XDP.STATS` stands for.
pub proof fn law_xdp_stats(a: Seq<Seq<u8>>, env: &ParseEnv)
    requires
        called(a, "XDP.STATS"@),
    ensures
        makes(a, env, CommandView::XdpStats),
{
    reveal(verdict);
    lemma_called(a);
    assert(named_command_spec(upper_word(a[0]), unnamed(a), env) == xdp_stats_spec(unnamed(a))) by {
        lemma_reach_modules(upper_word(a[0]), unnamed(a), env);
        lemma_modules_codes();
    }
}

/// What `XDP.PACKET` stands for.
pub proof fn law_xdp_packet(a: Seq<Seq<u8>>, env: &ParseEnv)
    requires
        called(a, "XDP.PACKET"@),
    ensures
        a.len() != 2 ==> refuses(a, env, "wrong number of arguments for 'xdp.packet' command"@),
        a.len() == 2 ==> makes(a, env, CommandView::XdpPacket(a[1])),
{
    reveal(verdict);
    lemma_called(a);
    assert(named_command_spec(
        upper_word(a[0]),
        unnamed(a),
        env,
    ) == xdp_packet_spec(unnamed(a))) by {
        lemma_reach_modules(upper_word(a[0]), unnamed(a), env);
        lemma_modules_codes();
    }
}

/// What `XDP.SOCKET` stands for.
pub proof fn law_xdp_socket(a: Seq<Seq<u8>>, env: &ParseEnv)
    requires
        called(a, "XDP.SOCKET"@),
    ensures
        a.len() != 2 ==> refuses(a, env, "wrong number of arguments for 'xdp.socket' command"@),
        a.len() == 2 && u32_of(a[1]) is Some ==>
            makes(a, env, CommandView::XdpSocket(u32_of(a[1])->0)),
        a.len() == 2 && u32_of(a[1]) is None ==> makes(a, env, CommandView::XdpSocket(0)),
{
    reveal(verdict);
    lemma_called(a);
    assert(named_command_spec(
        upper_word(a[0]),
        unnamed(a),
        env,
    ) == xdp_socket_spec(unnamed(a))) by {
        lemma_reach_modules(upper_word(a[0]), unnamed(a), env);
        lemma_modules_codes();
    }
}

/// What `XDP.INJECT` stands for.
pub proof fn law_xdp_inject(a: Seq<Seq<u8>>, env: &ParseEnv)
    requires
        called(a, "XDP.INJECT"@),
    ensures
        a.len() != 3 ==> refuses(a, env, "wrong number of arguments for 'xdp.inject' command"@),
        a.len() == 3 && u32_of(a[1]) is Some ==>
            makes(a, env, CommandView::XdpInject { queue_id: u32_of(a[1])->0, payload: a[2] }),
        a.len() == 3 && u32_of(a[1]) is None ==>
            makes(a, env, CommandView::XdpInject { queue_id: 0, payload: a[2] }),
{
    reveal(verdict);
    lemma_called(a);
    assert(named_command_spec(
        upper_word(a[0]),
        unnamed(a),
        env,
    ) == xdp_inject_spec(unnamed(a))) by {
        lemma_reach_modules(upper_word(a[0]), unnamed(a), env);
        lemma_modules_codes();
    }
}

} // verus!
