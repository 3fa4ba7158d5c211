//! Access, the cluster and the clients.
use bytes::Bytes;
use vstd::prelude::*;

use crate::command::{
    AclSubcommand, AclSubcommandView, ClientSubcommand, ClientSubcommandView, ClusterSubcommand,
    ClusterSubcommandView, Command, CommandView, SetSlotSubcommand, SetSlotSubcommandView, built,
    built_opt,
};
use crate::lists::{
    contents, keys_from, lossy_texts, no_keys, no_weights, node_weights, push_key, push_weight,
    text_opt, texts_from,
};
use crate::numbers::{read_u16, read_u32, read_u64, read_usize, u16_of, u32_of, u64_of, usize_of};
use crate::octets::{content, slice_bytes};
use crate::operands::{ClientUnblockType, Double};
use crate::readings::{ParseEnv, double_of, find_byte, first_place, starts_with_byte};
use crate::text::{
    join2, join3, lossy, lossy_text, same_text, spells, spells_word, upper, upper_word,
};

verus! {

/// The name in front of the first equals sign, if there is one.
pub open spec fn node_part_of(b: Seq<u8>) -> Option<Seq<char>> {
    let p = first_place(b, 61);
    if p < b.len() {
        Some(lossy_text(b.take(p)))
    } else {
        None
    }
}

fn node_part(b: &Bytes) -> (r: Option<String>)
    ensures
        text_opt(r) == node_part_of(content(*b)),
{
    let s: &[u8] = b.as_ref();
    let p: usize = find_byte(s, 61);
    if p < s.len() {
        let head: Bytes = slice_bytes(b, 0, p);
        assert(content(head) =~= content(*b).take(p as int));
        Some(lossy(&head))
    } else {
        None
    }
}

/// The number behind the first equals sign, if there is one and it reads as a number.
pub open spec fn weight_part_of(env: &ParseEnv, b: Seq<u8>) -> Option<Double> {
    let p = first_place(b, 61);
    if p < b.len() {
        double_of(env, b.skip(p + 1))
    } else {
        None
    }
}

fn weight_part(env: &ParseEnv, b: &Bytes) -> (r: Option<Double>)
    ensures
        r == weight_part_of(env, content(*b)),
{
    let s: &[u8] = b.as_ref();
    let p: usize = find_byte(s, 61);
    if p < s.len() {
        let tail: &[u8] = vstd::slice::slice_subrange(s, p + 1, s.len());
        assert(tail@ =~= content(*b).skip(p + 1));
        env.double(tail)
    } else {
        None
    }
}

/// What `AUTH` builds from its arguments.
pub open spec fn auth_spec(a: Seq<Seq<u8>>) -> Result<CommandView, Seq<char>> {
    if a.len() == 2 {
        Ok(CommandView::Auth { username: None, password: lossy_text(a[1]) })
    } else if a.len() == 3 {
        Ok(CommandView::Auth { username: Some(lossy_text(a[1])), password: lossy_text(a[2]) })
    } else {
        Err("wrong number of arguments for 'auth' command"@)
    }
}

pub(crate) fn build_auth(args: &Vec<Bytes>) -> (r: Result<Command, String>)
    requires
        args.len() > 0,
    ensures
        built(r) == auth_spec(contents(args@)),
{
    if args.len() == 2 {
        Ok(Command::Auth { username: None, password: lossy(&args[1]) })
    } else if args.len() == 3 {
        Ok(Command::Auth { username: Some(lossy(&args[1])), password: lossy(&args[2]) })
    } else {
        Err("wrong number of arguments for 'auth' command".to_owned())
    }
}

/// What `ACL` builds from its arguments.
pub open spec fn acl_spec(a: Seq<Seq<u8>>) -> Result<CommandView, Seq<char>> {
    if a.len() < 2 {
        Err("wrong number of arguments for 'acl' command"@)
    } else {
        let sub = upper_word(a[1]);
        if sub == "LIST"@ {
            Ok(CommandView::Acl(AclSubcommandView::List))
        } else if sub == "USERS"@ {
            Ok(CommandView::Acl(AclSubcommandView::Users))
        } else if sub == "WHOAMI"@ {
            Ok(CommandView::Acl(AclSubcommandView::WhoAmI))
        } else if sub == "CAT"@ {
            Ok(CommandView::Acl(AclSubcommandView::Cat))
        } else if sub == "GETUSER"@ {
            if a.len() != 3 {
                Err("wrong number of arguments for 'acl|getuser' command"@)
            } else {
                Ok(CommandView::Acl(AclSubcommandView::GetUser(lossy_text(a[2]))))
            }
        } else if sub == "SETUSER"@ {
            if a.len() < 3 {
                Err("wrong number of arguments for 'acl|setuser' command"@)
            } else {
                Ok(CommandView::Acl(AclSubcommandView::SetUser {
                    username: lossy_text(a[2]),
                    rules: lossy_texts(a.skip(3)),
                }))
            }
        } else if sub == "DELUSER"@ {
            if a.len() < 3 {
                Err("wrong number of arguments for 'acl|deluser' command"@)
            } else {
                Ok(CommandView::Acl(AclSubcommandView::DelUser(lossy_texts(a.skip(2)))))
            }
        } else {
            Err("unknown subcommand '"@ + sub + "' for 'acl'"@)
        }
    }
}

pub(crate) fn build_acl(args: &Vec<Bytes>) -> (r: Result<Command, String>)
    requires
        args.len() > 0,
    ensures
        built(r) == acl_spec(contents(args@)),
{
    if args.len() < 2 {
        return Err("wrong number of arguments for 'acl' command".to_owned());
    }
    let sub: String = upper(&args[1]);
    if same_text(&sub, "LIST") {
        Ok(Command::Acl(AclSubcommand::List))
    } else if same_text(&sub, "USERS") {
        Ok(Command::Acl(AclSubcommand::Users))
    } else if same_text(&sub, "WHOAMI") {
        Ok(Command::Acl(AclSubcommand::WhoAmI))
    } else if same_text(&sub, "CAT") {
        Ok(Command::Acl(AclSubcommand::Cat))
    } else if same_text(&sub, "GETUSER") {
        if args.len() != 3 {
            return Err("wrong number of arguments for 'acl|getuser' command".to_owned());
        }
        Ok(Command::Acl(AclSubcommand::GetUser(lossy(&args[2]))))
    } else if same_text(&sub, "SETUSER") {
        if args.len() < 3 {
            return Err("wrong number of arguments for 'acl|setuser' command".to_owned());
        }
        Ok(Command::Acl(AclSubcommand::SetUser {
            username: lossy(&args[2]),
            rules: texts_from(args, 3),
        }))
    } else if same_text(&sub, "DELUSER") {
        if args.len() < 3 {
            return Err("wrong number of arguments for 'acl|deluser' command".to_owned());
        }
        Ok(Command::Acl(AclSubcommand::DelUser(texts_from(args, 2))))
    } else {
        Err(join3("unknown subcommand '", sub.as_str(), "' for 'acl'"))
    }
}

/// What `CLUSTER SETSLOT` builds from its arguments.
pub open spec fn cluster_setslot_spec(a: Seq<Seq<u8>>) -> Result<CommandView, Seq<char>> {
    if a.len() < 4 {
        Err("wrong number of arguments for 'cluster setslot' command"@)
    } else {
        match u16_of(a[2]) {
            None => Err("value is not an integer or out of range"@),
            Some(slot) => {
                let action = upper_word(a[3]);
                if action == "MIGRATING"@ {
                    if a.len() < 5 {
                        Err("wrong number of arguments for 'cluster setslot migrating' command"@)
                    } else {
                        Ok(CommandView::Cluster(ClusterSubcommandView::SetSlot(
                            slot,
                            SetSlotSubcommandView::Migrating(lossy_text(a[4])),
                        )))
                    }
                } else if action == "IMPORTING"@ {
                    if a.len() < 5 {
                        Err("wrong number of arguments for 'cluster setslot importing' command"@)
                    } else {
                        Ok(CommandView::Cluster(ClusterSubcommandView::SetSlot(
                            slot,
                            SetSlotSubcommandView::Importing(lossy_text(a[4])),
                        )))
                    }
                } else if action == "STABLE"@ {
                    Ok(CommandView::Cluster(ClusterSubcommandView::SetSlot(
                        slot,
                        SetSlotSubcommandView::Stable,
                    )))
                } else if action == "NODE"@ {
                    if a.len() < 5 {
                        Err("wrong number of arguments for 'cluster setslot node' command"@)
                    } else {
                        Ok(CommandView::Cluster(ClusterSubcommandView::SetSlot(
                            slot,
                            SetSlotSubcommandView::Node(lossy_text(a[4])),
                        )))
                    }
                } else {
                    Ok(CommandView::Unknown("CLUSTER SETSLOT "@ + action))
                }
            },
        }
    }
}

pub(crate) fn build_cluster_setslot(args: &Vec<Bytes>) -> (r: Result<Command, String>)
    requires
        args.len() > 1,
    ensures
        built(r) == cluster_setslot_spec(contents(args@)),
{
    if args.len() < 4 {
        return Err("wrong number of arguments for 'cluster setslot' command".to_owned());
    }
    let slot: u16 = match read_u16(args[2].as_ref()) {
        Some(v) => v,
        None => return Err("value is not an integer or out of range".to_owned()),
    };
    let action: String = upper(&args[3]);
    if same_text(&action, "MIGRATING") {
        if args.len() < 5 {
            return Err("wrong number of arguments for 'cluster setslot migrating' command".to_owned());
        }
        Ok(Command::Cluster(ClusterSubcommand::SetSlot(
            slot,
            SetSlotSubcommand::Migrating(lossy(&args[4])),
        )))
    } else if same_text(&action, "IMPORTING") {
        if args.len() < 5 {
            return Err("wrong number of arguments for 'cluster setslot importing' command".to_owned());
        }
        Ok(Command::Cluster(ClusterSubcommand::SetSlot(
            slot,
            SetSlotSubcommand::Importing(lossy(&args[4])),
        )))
    } else if same_text(&action, "STABLE") {
        Ok(Command::Cluster(ClusterSubcommand::SetSlot(slot, SetSlotSubcommand::Stable)))
    } else if same_text(&action, "NODE") {
        if args.len() < 5 {
            return Err("wrong number of arguments for 'cluster setslot node' command".to_owned());
        }
        Ok(Command::Cluster(ClusterSubcommand::SetSlot(
            slot,
            SetSlotSubcommand::Node(lossy(&args[4])),
        )))
    } else {
        Ok(Command::Unknown(join2("CLUSTER SETSLOT ", action.as_str())))
    }
}

/// What slots from `i` on add to those before them.
pub open spec fn slots_from(
    a: Seq<Seq<u8>>,
    slots: Seq<u16>,
    i: int,
) -> Result<Seq<u16>, Seq<char>>
    decreases a.len() - i,
{
    if i >= a.len() {
        Ok(slots)
    } else {
        match u16_of(a[i]) {
            None => Err("value is not an integer or out of range"@),
            Some(slot) => {
                let slots = slots.push(slot);
                let i: int = i + 1;
                slots_from(a, slots, i)
            },
        }
    }
}

/// Reads slots from `from` on.
#[verifier::loop_isolation(false)]
pub(crate) fn read_slots(args: &Vec<Bytes>, from: usize) -> (r: Result<Vec<u16>, String>)
    requires
        from <= args.len(),
    ensures
        match slots_from(contents(args@), Seq::empty(), from as int) {
            Ok(x) => r matches Ok(y) && x == y@,
            Err(e) => r matches Err(y) && y@ == e,
        },
{
    let mut slots: Vec<u16> = Vec::new();
    let mut i: usize = from;
    let ghost goal = slots_from(contents(args@), slots@, i as int);
    while i < args.len()
        invariant
            i <= args.len(),
            slots_from(contents(args@), slots@, i as int) == goal,
        decreases args.len() - i,
    {
        let slot: u16 = match read_u16(args[i].as_ref()) {
            Some(v) => v,
            None => return Err("value is not an integer or out of range".to_owned()),
        };
        slots.push(slot);
        i = i + 1;
    }
    Ok(slots)
}

/// What `CLUSTER ADDSLOTS` builds from its arguments.
pub open spec fn cluster_addslots_spec(a: Seq<Seq<u8>>) -> Result<CommandView, Seq<char>> {
    if a.len() < 3 {
        Err("wrong number of arguments for 'cluster addslots' command"@)
    } else {
        let slots = Seq::<u16>::empty();
        let i: int = 2;
        match slots_from(a, slots, i) {
            Err(e) => Err(e),
            Ok(slots) => {
                Ok(CommandView::Cluster(ClusterSubcommandView::AddSlots(slots)))
            },
        }
    }
}

pub(crate) fn build_cluster_addslots(args: &Vec<Bytes>) -> (r: Result<Command, String>)
    requires
        args.len() > 1,
    ensures
        built(r) == cluster_addslots_spec(contents(args@)),
{
    if args.len() < 3 {
        return Err("wrong number of arguments for 'cluster addslots' command".to_owned());
    }
    let slots: Vec<u16> = match read_slots(args, 2) {
        Ok(v) => v,
        Err(e) => return Err(e),
    };
    Ok(Command::Cluster(ClusterSubcommand::AddSlots(slots)))
}

/// What ranges of slots from `i` on add to those before them.
pub open spec fn slot_ranges_from(
    a: Seq<Seq<u8>>,
    ranges: Seq<(u16, u16)>,
    i: int,
) -> Result<Seq<(u16, u16)>, Seq<char>>
    decreases a.len() - i,
{
    if a.len() - i <= 1 {
        Ok(ranges)
    } else {
        match u16_of(a[i]) {
            None => Err("value is not an integer or out of range"@),
            Some(start) => {
                match u16_of(a[i + 1]) {
                    None => Err("value is not an integer or out of range"@),
                    Some(end) => {
                        let ranges = ranges.push((start, end));
                        let i: int = i + 2;
                        slot_ranges_from(a, ranges, i)
                    },
                }
            },
        }
    }
}

/// Reads ranges of slots from `from` on.
#[verifier::loop_isolation(false)]
pub(crate) fn read_slot_ranges(
    args: &Vec<Bytes>,
    from: usize,
) -> (r: Result<Vec<(u16, u16)>, String>)
    requires
        from <= args.len(),
    ensures
        match slot_ranges_from(contents(args@), Seq::empty(), from as int) {
            Ok(x) => r matches Ok(y) && x == y@,
            Err(e) => r matches Err(y) && y@ == e,
        },
{
    let mut ranges: Vec<(u16, u16)> = Vec::new();
    let mut i: usize = from;
    let ghost goal = slot_ranges_from(contents(args@), ranges@, i as int);
    while args.len() - i > 1
        invariant
            i <= args.len(),
            slot_ranges_from(contents(args@), ranges@, i as int) == goal,
        decreases args.len() - i,
    {
        let start: u16 = match read_u16(args[i].as_ref()) {
            Some(v) => v,
            None => return Err("value is not an integer or out of range".to_owned()),
        };
        let end: u16 = match read_u16(args[i + 1].as_ref()) {
            Some(v) => v,
            None => return Err("value is not an integer or out of range".to_owned()),
        };
        ranges.push((start, end));
        i = i + 2;
    }
    Ok(ranges)
}

/// What `CLUSTER ADDSLOTSRANGE` builds from its arguments.
pub open spec fn cluster_addslotsrange_spec(a: Seq<Seq<u8>>) -> Result<CommandView, Seq<char>> {
    if a.len() < 4 || (a.len() - 2) % 2 != 0 {
        Err("wrong number of arguments for 'cluster addslotsrange' command"@)
    } else {
        let ranges = Seq::<(u16, u16)>::empty();
        let i: int = 2;
        match slot_ranges_from(a, ranges, i) {
            Err(e) => Err(e),
            Ok(ranges) => {
                Ok(CommandView::Cluster(ClusterSubcommandView::AddSlotsRange(ranges)))
            },
        }
    }
}

pub(crate) fn build_cluster_addslotsrange(args: &Vec<Bytes>) -> (r: Result<Command, String>)
    requires
        args.len() > 1,
    ensures
        built(r) == cluster_addslotsrange_spec(contents(args@)),
{
    if args.len() < 4 || (args.len() - 2) % 2 != 0 {
        return Err("wrong number of arguments for 'cluster addslotsrange' command".to_owned());
    }
    let ranges: Vec<(u16, u16)> = match read_slot_ranges(args, 2) {
        Ok(v) => v,
        Err(e) => return Err(e),
    };
    Ok(Command::Cluster(ClusterSubcommand::AddSlotsRange(ranges)))
}

/// What `CLUSTER DELSLOTS` builds from its arguments.
pub open spec fn cluster_delslots_spec(a: Seq<Seq<u8>>) -> Result<CommandView, Seq<char>> {
    if a.len() < 3 {
        Err("wrong number of arguments for 'cluster delslots' command"@)
    } else {
        let slots = Seq::<u16>::empty();
        let i: int = 2;
        match slots_from(a, slots, i) {
            Err(e) => Err(e),
            Ok(slots) => {
                Ok(CommandView::Cluster(ClusterSubcommandView::DelSlots(slots)))
            },
        }
    }
}

pub(crate) fn build_cluster_delslots(args: &Vec<Bytes>) -> (r: Result<Command, String>)
    requires
        args.len() > 1,
    ensures
        built(r) == cluster_delslots_spec(contents(args@)),
{
    if args.len() < 3 {
        return Err("wrong number of arguments for 'cluster delslots' command".to_owned());
    }
    let slots: Vec<u16> = match read_slots(args, 2) {
        Ok(v) => v,
        Err(e) => return Err(e),
    };
    Ok(Command::Cluster(ClusterSubcommand::DelSlots(slots)))
}

/// What `CLUSTER DELSLOTSRANGE` builds from its arguments.
pub open spec fn cluster_delslotsrange_spec(a: Seq<Seq<u8>>) -> Result<CommandView, Seq<char>> {
    if a.len() < 4 || (a.len() - 2) % 2 != 0 {
        Err("wrong number of arguments for 'cluster delslotsrange' command"@)
    } else {
        let ranges = Seq::<(u16, u16)>::empty();
        let i: int = 2;
        match slot_ranges_from(a, ranges, i) {
            Err(e) => Err(e),
            Ok(ranges) => {
                Ok(CommandView::Cluster(ClusterSubcommandView::DelSlotsRange(ranges)))
            },
        }
    }
}

pub(crate) fn build_cluster_delslotsrange(args: &Vec<Bytes>) -> (r: Result<Command, String>)
    requires
        args.len() > 1,
    ensures
        built(r) == cluster_delslotsrange_spec(contents(args@)),
{
    if args.len() < 4 || (args.len() - 2) % 2 != 0 {
        return Err("wrong number of arguments for 'cluster delslotsrange' command".to_owned());
    }
    let ranges: Vec<(u16, u16)> = match read_slot_ranges(args, 2) {
        Ok(v) => v,
        Err(e) => return Err(e),
    };
    Ok(Command::Cluster(ClusterSubcommand::DelSlotsRange(ranges)))
}

/// What `CLUSTER REBALANCE` makes of its arguments from `i` on, given what came before them.
pub open spec fn rebalance_weights(
    a: Seq<Seq<u8>>,
    env: &ParseEnv,
    weights: Seq<(Seq<char>, Double)>,
    i: int,
) -> (Seq<(Seq<char>, Double)>, int)
    decreases a.len() - i,
{
    if i >= a.len() {
        (weights, i)
    } else {
        match node_part_of(a[i]) {
            Some(node) => {
                match weight_part_of(env, a[i]) {
                    Some(weight) => {
                        let weights = weights.push((node, weight));
                        let i: int = i + 1;
                        rebalance_weights(a, env, weights, i)
                    },
                    None => {
                        let i: int = i + 1;
                        rebalance_weights(a, env, weights, i)
                    },
                }
            },
            None => {
                (weights, i)
            },
        }
    }
}

pub proof fn rebalance_weights_advances(
    a: Seq<Seq<u8>>,
    env: &ParseEnv,
    weights: Seq<(Seq<char>, Double)>,
    i: int,
)
    ensures
        i <= a.len() ==> i <= rebalance_weights(a, env, weights, i).1 <= a.len(),
    decreases a.len() - i,
{
    if i < a.len() {
        match node_part_of(a[i]) {
            Some(node) => {
                match weight_part_of(env, a[i]) {
                    Some(weight) => {
                        let weights = weights.push((node, weight));
                        let i: int = i + 1;
                        rebalance_weights_advances(a, env, weights, i);
                    },
                    None => {
                        let i: int = i + 1;
                        rebalance_weights_advances(a, env, weights, i);
                    },
                }
            },
            None => {
            },
        }
    }
}

/// What `CLUSTER REBALANCE` makes of its arguments from `i` on, given what came before them.
pub open spec fn rebalance_options(
    a: Seq<Seq<u8>>,
    env: &ParseEnv,
    host: Option<Seq<char>>,
    port: Option<u16>,
    slots: Option<usize>,
    weights: Seq<(Seq<char>, Double)>,
    simulate: bool,
    threshold: Double,
    pipeline: usize,
    i: int,
) -> (Option<Seq<char>>, Option<u16>, Option<usize>, Seq<(Seq<char>, Double)>, bool, Double, usize)
    decreases a.len() - i,
{
    if i >= a.len() {
        (host, port, slots, weights, simulate, threshold, pipeline)
    } else {
        let token = upper_word(a[i]);
        if token == "SIMULATE"@ {
            let simulate = true;
            let i: int = i + 1;
            rebalance_options(a, env, host, port, slots, weights, simulate, threshold, pipeline, i)
        } else if token == "THRESHOLD"@ && a.len() - i > 1 {
            let threshold = match double_of(env, a[i + 1]) {
                Some(t) => {
                    let threshold = t;
                    threshold
                },
                None => {
                    let threshold = Double { bits: 0x3ff4_0000_0000_0000 };
                    threshold
                },
            };
            let i: int = i + 2;
            rebalance_options(a, env, host, port, slots, weights, simulate, threshold, pipeline, i)
        } else if token == "PIPELINE"@ && a.len() - i > 1 {
            let pipeline = match usize_of(a[i + 1]) {
                Some(p) => {
                    let pipeline: usize = p;
                    pipeline
                },
                None => {
                    let pipeline: usize = 16;
                    pipeline
                },
            };
            let i: int = i + 2;
            rebalance_options(a, env, host, port, slots, weights, simulate, threshold, pipeline, i)
        } else if token == "WEIGHTS"@ {
            let i: int = i + 1;
            proof {
                rebalance_weights_advances(a, env, weights, i);
            }
            let (weights, i) = rebalance_weights(a, env, weights, i);
            rebalance_options(a, env, host, port, slots, weights, simulate, threshold, pipeline, i)
        } else if host is None && a.len() - i > 1 && !(a[i].len() > 0 && a[i][0] == 45) {
            let host = Some(lossy_text(a[i]));
            let port = u16_of(a[i + 1]);
            let i: int = i + 2;
            if i < a.len() {
                match usize_of(a[i]) {
                    Some(n) => {
                        let slots = Some(n);
                        let i: int = i + 1;
                        rebalance_options(
                            a,
                            env,
                            host,
                            port,
                            slots,
                            weights,
                            simulate,
                            threshold,
                            pipeline,
                            i,
                        )
                    },
                    None => {
                        rebalance_options(
                            a,
                            env,
                            host,
                            port,
                            slots,
                            weights,
                            simulate,
                            threshold,
                            pipeline,
                            i,
                        )
                    },
                }
            } else {
                rebalance_options(
                    a,
                    env,
                    host,
                    port,
                    slots,
                    weights,
                    simulate,
                    threshold,
                    pipeline,
                    i,
                )
            }
        } else {
            let i: int = i + 1;
            rebalance_options(a, env, host, port, slots, weights, simulate, threshold, pipeline, i)
        }
    }
}

/// What `CLUSTER REBALANCE` builds from its arguments.
pub open spec fn cluster_rebalance_spec(
    a: Seq<Seq<u8>>,
    env: &ParseEnv,
) -> Result<CommandView, Seq<char>> {
    let host: Option<Seq<char>> = None;
    let port: Option<u16> = None;
    let slots: Option<usize> = None;
    let weights = Seq::<(Seq<char>, Double)>::empty();
    let simulate = false;
    let threshold = Double { bits: 0x3ff4_0000_0000_0000 };
    let pipeline: usize = 16;
    let i: int = 2;
    let (host, port, slots, weights, simulate, threshold, pipeline) = rebalance_options(
        a,
        env,
        host,
        port,
        slots,
        weights,
        simulate,
        threshold,
        pipeline,
        i,
    );
    Ok(CommandView::Cluster(ClusterSubcommandView::Rebalance {
        host,
        port,
        slots,
        weights,
        simulate,
        threshold,
        pipeline,
    }))
}

#[verifier::loop_isolation(false)]
pub(crate) fn build_cluster_rebalance(
    args: &Vec<Bytes>,
    env: &ParseEnv,
) -> (r: Result<Command, String>)
    requires
        args.len() > 1,
    ensures
        built(r) == cluster_rebalance_spec(contents(args@), env),
{
    let mut host: Option<String> = None;
    let mut port: Option<u16> = None;
    let mut slots: Option<usize> = None;
    let mut weights: Vec<(String, Double)> = no_weights();
    let mut simulate: bool = false;
    let mut threshold: Double = Double { bits: 0x3ff4_0000_0000_0000 };
    let mut pipeline: usize = 16;
    let mut i: usize = 2;
    let ghost goal_rebalance_options = rebalance_options(
        contents(args@),
        env,
        text_opt(host),
        port,
        slots,
        node_weights(weights@),
        simulate,
        threshold,
        pipeline,
        i as int,
    );
    while i < args.len()
        invariant
            i <= args.len(),
            rebalance_options(
                contents(args@),
                env,
                text_opt(host),
                port,
                slots,
                node_weights(weights@),
                simulate,
                threshold,
                pipeline,
                i as int,
            ) == goal_rebalance_options,
        decreases args.len() - i,
    {
        let token: String = upper(&args[i]);
        if same_text(&token, "SIMULATE") {
            simulate = true;
            i = i + 1;
        } else if same_text(&token, "THRESHOLD") && args.len() - i > 1 {
            match env.double(args[i + 1].as_ref()) {
                Some(t) => {
                    threshold = t;
                },
                None => {
                    threshold = Double { bits: 0x3ff4_0000_0000_0000 };
                },
            }
            i = i + 2;
        } else if same_text(&token, "PIPELINE") && args.len() - i > 1 {
            match read_usize(args[i + 1].as_ref()) {
                Some(p) => {
                    pipeline = p;
                },
                None => {
                    pipeline = 16;
                },
            }
            i = i + 2;
        } else if same_text(&token, "WEIGHTS") {
            i = i + 1;
            let ghost goal_rebalance_weights = rebalance_weights(
                contents(args@),
                env,
                node_weights(weights@),
                i as int,
            );
            let ghost from_rebalance_weights = i;
            while i < args.len()
                invariant
                    i <= args.len(),
                    from_rebalance_weights <= i,
                    rebalance_weights(
                        contents(args@),
                        env,
                        node_weights(weights@),
                        i as int,
                    ) == goal_rebalance_weights,
                decreases args.len() - i,
            {
                match node_part(&args[i]) {
                    Some(node) => {
                        match weight_part(env, &args[i]) {
                            Some(weight) => {
                                push_weight(&mut weights, node, weight);
                                i = i + 1;
                            },
                            None => {
                                i = i + 1;
                            },
                        }
                    },
                    None => {
                        break;
                    },
                }
            }
        } else if host.is_none() && args.len() - i > 1 && !starts_with_byte(args[i].as_ref(), 45) {
            host = Some(lossy(&args[i]));
            port = read_u16(args[i + 1].as_ref());
            i = i + 2;
            if i < args.len() {
                match read_usize(args[i].as_ref()) {
                    Some(n) => {
                        slots = Some(n);
                        i = i + 1;
                    },
                    None => {
                    },
                }
            }
        } else {
            i = i + 1;
        }
    }
    Ok(Command::Cluster(ClusterSubcommand::Rebalance {
        host,
        port,
        slots,
        weights,
        simulate,
        threshold,
        pipeline,
    }))
}

/// What `CLUSTER` builds from its arguments.
pub open spec fn cluster_spec(a: Seq<Seq<u8>>, env: &ParseEnv) -> Result<CommandView, Seq<char>> {
    if a.len() < 2 {
        Err("wrong number of arguments for 'cluster' command"@)
    } else {
        let sub = upper_word(a[1]);
        if sub == "KEYSLOT"@ {
            if a.len() < 3 {
                Err("wrong number of arguments for 'cluster keyslot' command"@)
            } else {
                Ok(CommandView::Cluster(ClusterSubcommandView::KeySlot(a[2])))
            }
        } else if sub == "COUNTKEYSINSLOT"@ {
            if a.len() < 3 {
                Err("wrong number of arguments for 'cluster countkeysinslot' command"@)
            } else {
                match u16_of(a[2]) {
                    None => Err("value is not an integer or out of range"@),
                    Some(slot) => {
                        Ok(CommandView::Cluster(ClusterSubcommandView::CountKeysInSlot(slot)))
                    },
                }
            }
        } else if sub == "GETKEYSINSLOT"@ {
            if a.len() < 4 {
                Err("wrong number of arguments for 'cluster getkeysinslot' command"@)
            } else {
                match u16_of(a[2]) {
                    None => Err("value is not an integer or out of range"@),
                    Some(slot) => {
                        match usize_of(a[3]) {
                            None => Err("value is not an integer or out of range"@),
                            Some(count) => {
                                Ok(CommandView::Cluster(ClusterSubcommandView::GetKeysInSlot(slot, count)))
                            },
                        }
                    },
                }
            }
        } else if sub == "SETSLOT"@ {
            cluster_setslot_spec(a)
        } else if sub == "SLOTS"@ {
            Ok(CommandView::Cluster(ClusterSubcommandView::Slots))
        } else if sub == "SHARDS"@ {
            Ok(CommandView::Cluster(ClusterSubcommandView::Shards))
        } else if sub == "LINKS"@ {
            Ok(CommandView::Cluster(ClusterSubcommandView::Links))
        } else if sub == "ADDSLOTS"@ {
            cluster_addslots_spec(a)
        } else if sub == "DELSLOTS"@ {
            cluster_delslots_spec(a)
        } else if sub == "ADDSLOTSRANGE"@ || sub == "ADDSLOTS-RANGE"@ {
            cluster_addslotsrange_spec(a)
        } else if sub == "DELSLOTSRANGE"@ || sub == "DELSLOTS-RANGE"@ {
            cluster_delslotsrange_spec(a)
        } else if sub == "NODES"@ {
            Ok(CommandView::Cluster(ClusterSubcommandView::Nodes))
        } else if sub == "INFO"@ {
            Ok(CommandView::Cluster(ClusterSubcommandView::Info))
        } else if sub == "MYID"@ {
            Ok(CommandView::Cluster(ClusterSubcommandView::MyId))
        } else if sub == "MEET"@ {
            if a.len() < 4 {
                Err("wrong number of arguments for 'cluster meet' command"@)
            } else {
                match u16_of(a[3]) {
                    None => Err("value is not an integer or out of range"@),
                    Some(port) => {
                        Ok(CommandView::Cluster(ClusterSubcommandView::Meet { ip: lossy_text(a[2]), port }))
                    },
                }
            }
        } else if sub == "MIGRATE-SLOT"@ || sub == "MIGRATESLOT"@ {
            if a.len() < 5 {
                Err("wrong number of arguments for 'cluster migrate-slot' command"@)
            } else {
                match u16_of(a[2]) {
                    None => Err("value is not an integer or out of range"@),
                    Some(slot) => {
                        match u16_of(a[4]) {
                            None => Err("value is not an integer or out of range"@),
                            Some(port) => {
                                Ok(CommandView::Cluster(ClusterSubcommandView::MigrateSlot {
                                    slot,
                                    host: lossy_text(a[3]),
                                    port,
                                }))
                            },
                        }
                    },
                }
            }
        } else if sub == "REBALANCE"@ {
            cluster_rebalance_spec(a, env)
        } else if sub == "CHECK"@ {
            Ok(CommandView::Cluster(ClusterSubcommandView::Check))
        } else if sub == "RESHARD"@ {
            if a.len() < 5 {
                Err("wrong number of arguments for 'cluster reshard' command"@)
            } else {
                match usize_of(a[4]) {
                    None => Err("value is not an integer or out of range"@),
                    Some(slots) => {
                        Ok(CommandView::Cluster(ClusterSubcommandView::Reshard {
                            target_node_id: lossy_text(a[2]),
                            source_node_id: lossy_text(a[3]),
                            slots,
                        }))
                    },
                }
            }
        } else if sub == "FAILOVER"@ {
            Ok(CommandView::Cluster(ClusterSubcommandView::Failover { force: a.len() > 2 && spells(a[2], "FORCE"@) }))
        } else if sub == "RESET"@ {
            Ok(CommandView::Cluster(ClusterSubcommandView::Reset { hard: a.len() > 2 && spells(a[2], "HARD"@) }))
        } else if sub == "FORGET"@ {
            if a.len() < 3 {
                Err("wrong number of arguments for 'cluster forget' command"@)
            } else {
                Ok(CommandView::Cluster(ClusterSubcommandView::Forget(lossy_text(a[2]))))
            }
        } else if sub == "REPLICATE"@ {
            if a.len() < 3 {
                Err("wrong number of arguments for 'cluster replicate' command"@)
            } else {
                Ok(CommandView::Cluster(ClusterSubcommandView::Replicate(lossy_text(a[2]))))
            }
        } else if sub == "SAVECONFIG"@ {
            Ok(CommandView::Cluster(ClusterSubcommandView::SaveConfig))
        } else {
            Ok(CommandView::Unknown("CLUSTER "@ + sub))
        }
    }
}

pub(crate) fn build_cluster(args: &Vec<Bytes>, env: &ParseEnv) -> (r: Result<Command, String>)
    requires
        args.len() > 0,
    ensures
        built(r) == cluster_spec(contents(args@), env),
{
    if args.len() < 2 {
        return Err("wrong number of arguments for 'cluster' command".to_owned());
    }
    let sub: String = upper(&args[1]);
    if same_text(&sub, "KEYSLOT") {
        if args.len() < 3 {
            return Err("wrong number of arguments for 'cluster keyslot' command".to_owned());
        }
        Ok(Command::Cluster(ClusterSubcommand::KeySlot(args[2].clone())))
    } else if same_text(&sub, "COUNTKEYSINSLOT") {
        if args.len() < 3 {
            return Err("wrong number of arguments for 'cluster countkeysinslot' command".to_owned());
        }
        let slot: u16 = match read_u16(args[2].as_ref()) {
            Some(v) => v,
            None => return Err("value is not an integer or out of range".to_owned()),
        };
        Ok(Command::Cluster(ClusterSubcommand::CountKeysInSlot(slot)))
    } else if same_text(&sub, "GETKEYSINSLOT") {
        if args.len() < 4 {
            return Err("wrong number of arguments for 'cluster getkeysinslot' command".to_owned());
        }
        let slot: u16 = match read_u16(args[2].as_ref()) {
            Some(v) => v,
            None => return Err("value is not an integer or out of range".to_owned()),
        };
        let count: usize = match read_usize(args[3].as_ref()) {
            Some(v) => v,
            None => return Err("value is not an integer or out of range".to_owned()),
        };
        Ok(Command::Cluster(ClusterSubcommand::GetKeysInSlot(slot, count)))
    } else if same_text(&sub, "SETSLOT") {
        build_cluster_setslot(args)
    } else if same_text(&sub, "SLOTS") {
        Ok(Command::Cluster(ClusterSubcommand::Slots))
    } else if same_text(&sub, "SHARDS") {
        Ok(Command::Cluster(ClusterSubcommand::Shards))
    } else if same_text(&sub, "LINKS") {
        Ok(Command::Cluster(ClusterSubcommand::Links))
    } else if same_text(&sub, "ADDSLOTS") {
        build_cluster_addslots(args)
    } else if same_text(&sub, "DELSLOTS") {
        build_cluster_delslots(args)
    } else if same_text(&sub, "ADDSLOTSRANGE") || same_text(&sub, "ADDSLOTS-RANGE") {
        build_cluster_addslotsrange(args)
    } else if same_text(&sub, "DELSLOTSRANGE") || same_text(&sub, "DELSLOTS-RANGE") {
        build_cluster_delslotsrange(args)
    } else if same_text(&sub, "NODES") {
        Ok(Command::Cluster(ClusterSubcommand::Nodes))
    } else if same_text(&sub, "INFO") {
        Ok(Command::Cluster(ClusterSubcommand::Info))
    } else if same_text(&sub, "MYID") {
        Ok(Command::Cluster(ClusterSubcommand::MyId))
    } else if same_text(&sub, "MEET") {
        if args.len() < 4 {
            return Err("wrong number of arguments for 'cluster meet' command".to_owned());
        }
        let port: u16 = match read_u16(args[3].as_ref()) {
            Some(v) => v,
            None => return Err("value is not an integer or out of range".to_owned()),
        };
        Ok(Command::Cluster(ClusterSubcommand::Meet { ip: lossy(&args[2]), port }))
    } else if same_text(&sub, "MIGRATE-SLOT") || same_text(&sub, "MIGRATESLOT") {
        if args.len() < 5 {
            return Err("wrong number of arguments for 'cluster migrate-slot' command".to_owned());
        }
        let slot: u16 = match read_u16(args[2].as_ref()) {
            Some(v) => v,
            None => return Err("value is not an integer or out of range".to_owned()),
        };
        let port: u16 = match read_u16(args[4].as_ref()) {
            Some(v) => v,
            None => return Err("value is not an integer or out of range".to_owned()),
        };
        Ok(Command::Cluster(ClusterSubcommand::MigrateSlot { slot, host: lossy(&args[3]), port }))
    } else if same_text(&sub, "REBALANCE") {
        build_cluster_rebalance(args, env)
    } else if same_text(&sub, "CHECK") {
        Ok(Command::Cluster(ClusterSubcommand::Check))
    } else if same_text(&sub, "RESHARD") {
        if args.len() < 5 {
            return Err("wrong number of arguments for 'cluster reshard' command".to_owned());
        }
        let slots: usize = match read_usize(args[4].as_ref()) {
            Some(v) => v,
            None => return Err("value is not an integer or out of range".to_owned()),
        };
        Ok(Command::Cluster(ClusterSubcommand::Reshard {
            target_node_id: lossy(&args[2]),
            source_node_id: lossy(&args[3]),
            slots,
        }))
    } else if same_text(&sub, "FAILOVER") {
        Ok(Command::Cluster(ClusterSubcommand::Failover { force: args.len() > 2 && spells_word(args[2].as_ref(), "FORCE") }))
    } else if same_text(&sub, "RESET") {
        Ok(Command::Cluster(ClusterSubcommand::Reset { hard: args.len() > 2 && spells_word(args[2].as_ref(), "HARD") }))
    } else if same_text(&sub, "FORGET") {
        if args.len() < 3 {
            return Err("wrong number of arguments for 'cluster forget' command".to_owned());
        }
        Ok(Command::Cluster(ClusterSubcommand::Forget(lossy(&args[2]))))
    } else if same_text(&sub, "REPLICATE") {
        if args.len() < 3 {
            return Err("wrong number of arguments for 'cluster replicate' command".to_owned());
        }
        Ok(Command::Cluster(ClusterSubcommand::Replicate(lossy(&args[2]))))
    } else if same_text(&sub, "SAVECONFIG") {
        Ok(Command::Cluster(ClusterSubcommand::SaveConfig))
    } else {
        Ok(Command::Unknown(join2("CLUSTER ", sub.as_str())))
    }
}

/// What `ASKING` builds from its arguments.
pub open spec fn asking_spec(a: Seq<Seq<u8>>) -> Result<CommandView, Seq<char>> {
    Ok(CommandView::Asking)
}

pub(crate) fn build_asking(args: &Vec<Bytes>) -> (r: Result<Command, String>)
    requires
        args.len() > 0,
    ensures
        built(r) == asking_spec(contents(args@)),
{
    Ok(Command::Asking)
}

/// What `MIGRATE` makes of its arguments from `i` on, given what came before them.
pub open spec fn migrate_options(
    a: Seq<Seq<u8>>,
    copy: bool,
    replace: bool,
    keys: Seq<Seq<u8>>,
    i: int,
) -> (bool, bool, Seq<Seq<u8>>)
    decreases a.len() - i,
{
    if i >= a.len() {
        (copy, replace, keys)
    } else {
        let opt = upper_word(a[i]);
        if opt == "COPY"@ {
            let copy = true;
            let i: int = i + 1;
            migrate_options(a, copy, replace, keys, i)
        } else if opt == "REPLACE"@ {
            let replace = true;
            let i: int = i + 1;
            migrate_options(a, copy, replace, keys, i)
        } else if opt == "KEYS"@ {
            let keys = a.skip(i + 1);
            (copy, replace, keys)
        } else {
            let i: int = i + 1;
            migrate_options(a, copy, replace, keys, i)
        }
    }
}

/// What `MIGRATE` builds from its arguments.
pub open spec fn migrate_spec(a: Seq<Seq<u8>>) -> Result<CommandView, Seq<char>> {
    if a.len() < 6 {
        Err("wrong number of arguments for 'migrate' command"@)
    } else {
        match u16_of(a[2]) {
            None => Err("value is not an integer or out of range"@),
            Some(port) => {
                let key: Option<Seq<u8>> = None;
                let key = if a[3].len() != 0 {
                    let key = Some(a[3]);
                    key
                } else {
                    key
                };
                match u32_of(a[4]) {
                    None => Err("value is not an integer or out of range"@),
                    Some(destination_db) => {
                        match u64_of(a[5]) {
                            None => Err("value is not an integer or out of range"@),
                            Some(timeout_ms) => {
                                let copy = false;
                                let replace = false;
                                let keys = Seq::<Seq<u8>>::empty();
                                let i: int = 6;
                                let (copy, replace, keys) = migrate_options(a, copy, replace, keys, i);
                                Ok(CommandView::Migrate {
                                    host: lossy_text(a[1]),
                                    port,
                                    key,
                                    keys,
                                    destination_db,
                                    timeout_ms,
                                    copy,
                                    replace,
                                })
                            },
                        }
                    },
                }
            },
        }
    }
}

#[verifier::loop_isolation(false)]
pub(crate) fn build_migrate(args: &Vec<Bytes>) -> (r: Result<Command, String>)
    requires
        args.len() > 0,
    ensures
        built(r) == migrate_spec(contents(args@)),
{
    if args.len() < 6 {
        return Err("wrong number of arguments for 'migrate' command".to_owned());
    }
    let port: u16 = match read_u16(args[2].as_ref()) {
        Some(v) => v,
        None => return Err("value is not an integer or out of range".to_owned()),
    };
    let mut key: Option<Bytes> = None;
    if args[3].as_ref().len() != 0 {
        key = Some(args[3].clone());
    }
    let destination_db: u32 = match read_u32(args[4].as_ref()) {
        Some(v) => v,
        None => return Err("value is not an integer or out of range".to_owned()),
    };
    let timeout_ms: u64 = match read_u64(args[5].as_ref()) {
        Some(v) => v,
        None => return Err("value is not an integer or out of range".to_owned()),
    };
    let mut copy: bool = false;
    let mut replace: bool = false;
    let mut keys: Vec<Bytes> = no_keys();
    let mut i: usize = 6;
    let ghost goal_migrate_options = migrate_options(
        contents(args@),
        copy,
        replace,
        contents(keys@),
        i as int,
    );
    while i < args.len()
        invariant
            i <= args.len(),
            migrate_options(
                contents(args@),
                copy,
                replace,
                contents(keys@),
                i as int,
            ) == goal_migrate_options,
        decreases args.len() - i,
    {
        let opt: String = upper(&args[i]);
        if same_text(&opt, "COPY") {
            copy = true;
            i = i + 1;
        } else if same_text(&opt, "REPLACE") {
            replace = true;
            i = i + 1;
        } else if same_text(&opt, "KEYS") {
            keys = keys_from(args, i + 1);
            break;
        } else {
            i = i + 1;
        }
    }
    Ok(Command::Migrate {
        host: lossy(&args[1]),
        port,
        key,
        keys,
        destination_db,
        timeout_ms,
        copy,
        replace,
    })
}

/// What `CLIENT LIST` makes of its arguments from `i` on, given what came before them.
pub open spec fn client_ids(a: Seq<Seq<u8>>, ids: Seq<u64>, i: int) -> (Seq<u64>, int)
    decreases a.len() - i,
{
    if i >= a.len() {
        (ids, i)
    } else {
        match u64_of(a[i]) {
            Some(id) => {
                let ids = ids.push(id);
                let i: int = i + 1;
                client_ids(a, ids, i)
            },
            None => {
                (ids, i)
            },
        }
    }
}

pub proof fn client_ids_advances(a: Seq<Seq<u8>>, ids: Seq<u64>, i: int)
    ensures
        i <= a.len() ==> i <= client_ids(a, ids, i).1 <= a.len(),
    decreases a.len() - i,
{
    if i < a.len() {
        match u64_of(a[i]) {
            Some(id) => {
                let ids = ids.push(id);
                let i: int = i + 1;
                client_ids_advances(a, ids, i);
            },
            None => {
            },
        }
    }
}

/// What `CLIENT LIST` makes of its arguments from `i` on, given what came before them.
pub open spec fn client_list_options(a: Seq<Seq<u8>>, ids: Seq<u64>, i: int) -> Seq<u64>
    decreases a.len() - i,
{
    if i >= a.len() {
        ids
    } else {
        let opt = upper_word(a[i]);
        if opt == "ID"@ {
            let i: int = i + 1;
            proof {
                client_ids_advances(a, ids, i);
            }
            let (ids, i) = client_ids(a, ids, i);
            client_list_options(a, ids, i)
        } else if opt == "TYPE"@ && a.len() - i > 1 {
            let i: int = i + 2;
            client_list_options(a, ids, i)
        } else {
            let i: int = i + 1;
            client_list_options(a, ids, i)
        }
    }
}

/// What `CLIENT LIST` builds from its arguments.
pub open spec fn client_list_spec(a: Seq<Seq<u8>>) -> Result<CommandView, Seq<char>> {
    let ids = Seq::<u64>::empty();
    let i: int = 2;
    let ids = client_list_options(a, ids, i);
    Ok(CommandView::Client(ClientSubcommandView::List(ids)))
}

#[verifier::loop_isolation(false)]
pub(crate) fn build_client_list(args: &Vec<Bytes>) -> (r: Result<Command, String>)
    requires
        args.len() > 1,
    ensures
        built(r) == client_list_spec(contents(args@)),
{
    let mut ids: Vec<u64> = Vec::new();
    let mut i: usize = 2;
    let ghost goal_client_list_options = client_list_options(contents(args@), ids@, i as int);
    while i < args.len()
        invariant
            i <= args.len(),
            client_list_options(contents(args@), ids@, i as int) == goal_client_list_options,
        decreases args.len() - i,
    {
        let opt: String = upper(&args[i]);
        if same_text(&opt, "ID") {
            i = i + 1;
            let ghost goal_client_ids = client_ids(contents(args@), ids@, i as int);
            let ghost from_client_ids = i;
            while i < args.len()
                invariant
                    i <= args.len(),
                    from_client_ids <= i,
                    client_ids(contents(args@), ids@, i as int) == goal_client_ids,
                decreases args.len() - i,
            {
                match read_u64(args[i].as_ref()) {
                    Some(id) => {
                        ids.push(id);
                        i = i + 1;
                    },
                    None => {
                        break;
                    },
                }
            }
        } else if same_text(&opt, "TYPE") && args.len() - i > 1 {
            i = i + 2;
        } else {
            i = i + 1;
        }
    }
    Ok(Command::Client(ClientSubcommand::List(ids)))
}

/// What `CLIENT TRACKING` makes of its arguments from `i` on, given what came before them.
pub open spec fn tracking_options(
    a: Seq<Seq<u8>>,
    bcast: bool,
    prefixes: Seq<Seq<u8>>,
    i: int,
) -> (bool, Seq<Seq<u8>>)
    decreases a.len() - i,
{
    if i >= a.len() {
        (bcast, prefixes)
    } else {
        let opt = upper_word(a[i]);
        if opt == "BCAST"@ {
            let bcast = true;
            let i: int = i + 1;
            tracking_options(a, bcast, prefixes, i)
        } else if opt == "PREFIX"@ && a.len() - i > 1 {
            let prefixes = prefixes.push(a[i + 1]);
            let i: int = i + 2;
            tracking_options(a, bcast, prefixes, i)
        } else {
            let i: int = i + 1;
            tracking_options(a, bcast, prefixes, i)
        }
    }
}

/// What `CLIENT TRACKING` builds from its arguments.
pub open spec fn client_tracking_spec(a: Seq<Seq<u8>>) -> Result<CommandView, Seq<char>> {
    if a.len() < 3 {
        Err("wrong number of arguments for 'client tracking' command"@)
    } else {
        let state = upper_word(a[2]);
        if state != "ON"@ && state != "OFF"@ {
            Err("syntax error: expected 'on' or 'off'"@)
        } else {
            let bcast = false;
            let prefixes = Seq::<Seq<u8>>::empty();
            let i: int = 3;
            let (bcast, prefixes) = tracking_options(a, bcast, prefixes, i);
            if state == "ON"@ {
                Ok(CommandView::Client(ClientSubcommandView::Tracking {
                    enabled: true,
                    bcast,
                    prefixes,
                }))
            } else {
                Ok(CommandView::Client(ClientSubcommandView::Tracking {
                    enabled: false,
                    bcast,
                    prefixes,
                }))
            }
        }
    }
}

#[verifier::loop_isolation(false)]
pub(crate) fn build_client_tracking(args: &Vec<Bytes>) -> (r: Result<Command, String>)
    requires
        args.len() > 1,
    ensures
        built(r) == client_tracking_spec(contents(args@)),
{
    if args.len() < 3 {
        return Err("wrong number of arguments for 'client tracking' command".to_owned());
    }
    let state: String = upper(&args[2]);
    if !same_text(&state, "ON") && !same_text(&state, "OFF") {
        return Err("syntax error: expected 'on' or 'off'".to_owned());
    }
    let mut bcast: bool = false;
    let mut prefixes: Vec<Bytes> = no_keys();
    let mut i: usize = 3;
    let ghost goal_tracking_options = tracking_options(
        contents(args@),
        bcast,
        contents(prefixes@),
        i as int,
    );
    while i < args.len()
        invariant
            i <= args.len(),
            tracking_options(
                contents(args@),
                bcast,
                contents(prefixes@),
                i as int,
            ) == goal_tracking_options,
        decreases args.len() - i,
    {
        let opt: String = upper(&args[i]);
        if same_text(&opt, "BCAST") {
            bcast = true;
            i = i + 1;
        } else if same_text(&opt, "PREFIX") && args.len() - i > 1 {
            push_key(&mut prefixes, args[i + 1].clone());
            i = i + 2;
        } else {
            i = i + 1;
        }
    }
    if same_text(&state, "ON") {
        Ok(Command::Client(ClientSubcommand::Tracking { enabled: true, bcast, prefixes }))
    } else {
        Ok(Command::Client(ClientSubcommand::Tracking { enabled: false, bcast, prefixes }))
    }
}

/// What `CLIENT UNBLOCK` builds from its arguments.
pub open spec fn client_unblock_spec(a: Seq<Seq<u8>>) -> Result<CommandView, Seq<char>> {
    if a.len() < 3 || a.len() > 4 {
        Err("wrong number of arguments for 'client unblock' command"@)
    } else {
        match u64_of(a[2]) {
            None => Err("value is not an integer or out of range"@),
            Some(client_id) => {
                if a.len() == 4 {
                    let opt = upper_word(a[3]);
                    if opt == "TIMEOUT"@ {
                        Ok(CommandView::Client(ClientSubcommandView::Unblock {
                            client_id,
                            unblock_type: ClientUnblockType::Timeout,
                        }))
                    } else if opt == "ERROR"@ {
                        Ok(CommandView::Client(ClientSubcommandView::Unblock {
                            client_id,
                            unblock_type: ClientUnblockType::Error,
                        }))
                    } else {
                        Err("syntax error"@)
                    }
                } else {
                    Ok(CommandView::Client(ClientSubcommandView::Unblock {
                        client_id,
                        unblock_type: ClientUnblockType::Timeout,
                    }))
                }
            },
        }
    }
}

pub(crate) fn build_client_unblock(args: &Vec<Bytes>) -> (r: Result<Command, String>)
    requires
        args.len() > 1,
    ensures
        built(r) == client_unblock_spec(contents(args@)),
{
    if args.len() < 3 || args.len() > 4 {
        return Err("wrong number of arguments for 'client unblock' command".to_owned());
    }
    let client_id: u64 = match read_u64(args[2].as_ref()) {
        Some(v) => v,
        None => return Err("value is not an integer or out of range".to_owned()),
    };
    if args.len() == 4 {
        let opt: String = upper(&args[3]);
        if same_text(&opt, "TIMEOUT") {
            Ok(Command::Client(ClientSubcommand::Unblock {
                client_id,
                unblock_type: ClientUnblockType::Timeout,
            }))
        } else if same_text(&opt, "ERROR") {
            Ok(Command::Client(ClientSubcommand::Unblock {
                client_id,
                unblock_type: ClientUnblockType::Error,
            }))
        } else {
            Err("syntax error".to_owned())
        }
    } else {
        Ok(Command::Client(ClientSubcommand::Unblock {
            client_id,
            unblock_type: ClientUnblockType::Timeout,
        }))
    }
}

/// What `CLIENT` builds from its arguments.
pub open spec fn client_spec(a: Seq<Seq<u8>>) -> Result<CommandView, Seq<char>> {
    if a.len() < 2 {
        Err("wrong number of arguments for 'client' command"@)
    } else {
        let sub = upper_word(a[1]);
        if sub == "LIST"@ {
            client_list_spec(a)
        } else if sub == "INFO"@ {
            Ok(CommandView::Client(ClientSubcommandView::Info))
        } else if sub == "SETNAME"@ {
            if a.len() < 3 {
                Err("wrong number of arguments for 'client setname' command"@)
            } else {
                Ok(CommandView::Client(ClientSubcommandView::SetName(lossy_text(a[2]))))
            }
        } else if sub == "GETNAME"@ {
            Ok(CommandView::Client(ClientSubcommandView::GetName))
        } else if sub == "ID"@ {
            Ok(CommandView::Client(ClientSubcommandView::Id))
        } else if sub == "KILL"@ {
            Ok(CommandView::Client(ClientSubcommandView::Kill(a.skip(2))))
        } else if sub == "TRACKING"@ {
            client_tracking_spec(a)
        } else if sub == "CACHING"@ {
            if a.len() < 3 {
                Err("wrong number of arguments for 'client caching' command"@)
            } else {
                let state = upper_word(a[2]);
                Ok(CommandView::Client(ClientSubcommandView::Caching(state == "YES"@)))
            }
        } else if sub == "UNBLOCK"@ {
            client_unblock_spec(a)
        } else if sub == "PAUSE"@ {
            if a.len() < 3 {
                Err("wrong number of arguments for 'client pause' command"@)
            } else {
                match u64_of(a[2]) {
                    None => Err("value is not an integer or out of range"@),
                    Some(timeout) => {
                        Ok(CommandView::Client(ClientSubcommandView::Pause(timeout)))
                    },
                }
            }
        } else if sub == "UNPAUSE"@ {
            Ok(CommandView::Client(ClientSubcommandView::Unpause))
        } else if sub == "NO-TOUCH"@ {
            if a.len() < 3 {
                Err("wrong number of arguments for 'client no-touch' command"@)
            } else {
                let opt = upper_word(a[2]);
                Ok(CommandView::Client(ClientSubcommandView::NoTouch(opt == "ON"@ || opt == "YES"@ || opt == "1"@)))
            }
        } else {
            Ok(CommandView::Unknown("CLIENT "@ + sub))
        }
    }
}

pub(crate) fn build_client(args: &Vec<Bytes>) -> (r: Result<Command, String>)
    requires
        args.len() > 0,
    ensures
        built(r) == client_spec(contents(args@)),
{
    if args.len() < 2 {
        return Err("wrong number of arguments for 'client' command".to_owned());
    }
    let sub: String = upper(&args[1]);
    if same_text(&sub, "LIST") {
        build_client_list(args)
    } else if same_text(&sub, "INFO") {
        Ok(Command::Client(ClientSubcommand::Info))
    } else if same_text(&sub, "SETNAME") {
        if args.len() < 3 {
            return Err("wrong number of arguments for 'client setname' command".to_owned());
        }
        Ok(Command::Client(ClientSubcommand::SetName(lossy(&args[2]))))
    } else if same_text(&sub, "GETNAME") {
        Ok(Command::Client(ClientSubcommand::GetName))
    } else if same_text(&sub, "ID") {
        Ok(Command::Client(ClientSubcommand::Id))
    } else if same_text(&sub, "KILL") {
        Ok(Command::Client(ClientSubcommand::Kill(keys_from(args, 2))))
    } else if same_text(&sub, "TRACKING") {
        build_client_tracking(args)
    } else if same_text(&sub, "CACHING") {
        if args.len() < 3 {
            return Err("wrong number of arguments for 'client caching' command".to_owned());
        }
        let state: String = upper(&args[2]);
        Ok(Command::Client(ClientSubcommand::Caching(same_text(&state, "YES"))))
    } else if same_text(&sub, "UNBLOCK") {
        build_client_unblock(args)
    } else if same_text(&sub, "PAUSE") {
        if args.len() < 3 {
            return Err("wrong number of arguments for 'client pause' command".to_owned());
        }
        let timeout: u64 = match read_u64(args[2].as_ref()) {
            Some(v) => v,
            None => return Err("value is not an integer or out of range".to_owned()),
        };
        Ok(Command::Client(ClientSubcommand::Pause(timeout)))
    } else if same_text(&sub, "UNPAUSE") {
        Ok(Command::Client(ClientSubcommand::Unpause))
    } else if same_text(&sub, "NO-TOUCH") {
        if args.len() < 3 {
            return Err("wrong number of arguments for 'client no-touch' command".to_owned());
        }
        let opt: String = upper(&args[2]);
        Ok(Command::Client(ClientSubcommand::NoTouch(same_text(&opt, "ON") || same_text(&opt, "YES") || same_text(&opt, "1"))))
    } else {
        Ok(Command::Unknown(join2("CLIENT ", sub.as_str())))
    }
}

/// The commands on access, the cluster and the clients: the command that `name` stands for among them, if it is one.
pub open spec fn server_command_spec(
    name: Seq<char>,
    a: Seq<Seq<u8>>,
    env: &ParseEnv,
) -> Option<Result<CommandView, Seq<char>>> {
    if name == "AUTH"@ {
        Some(auth_spec(a))
    } else if name == "ACL"@ {
        Some(acl_spec(a))
    } else if name == "CLUSTER"@ {
        Some(cluster_spec(a, env))
    } else if name == "ASKING"@ {
        Some(asking_spec(a))
    } else if name == "MIGRATE"@ {
        Some(migrate_spec(a))
    } else if name == "CLIENT"@ {
        Some(client_spec(a))
    } else {
        None
    }
}

pub(crate) fn server_command(
    name: &str,
    args: &Vec<Bytes>,
    env: &ParseEnv,
) -> (r: Option<Result<Command, String>>)
    requires
        args.len() > 0,
    ensures
        built_opt(r) == server_command_spec(name@, contents(args@), env),
{
    if same_text(name, "AUTH") {
        Some(build_auth(args))
    } else if same_text(name, "ACL") {
        Some(build_acl(args))
    } else if same_text(name, "CLUSTER") {
        Some(build_cluster(args, env))
    } else if same_text(name, "ASKING") {
        Some(build_asking(args))
    } else if same_text(name, "MIGRATE") {
        Some(build_migrate(args))
    } else if same_text(name, "CLIENT") {
        Some(build_client(args))
    } else {
        None
    }
}

} // verus!
