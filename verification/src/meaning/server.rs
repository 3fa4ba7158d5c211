//! What the commands on access, the cluster and clients stand for.
use vstd::prelude::*;

use crate::build::named_command_spec;
use crate::build::naming::{lemma_reach_server, lemma_server_codes, name_code};
use crate::build::server::{
    acl_spec, asking_spec, auth_spec, client_spec, cluster_spec, migrate_spec,
};
use crate::command::{
    AclSubcommandView, ClientSubcommandView, ClusterSubcommandView, CommandView,
    SetSlotSubcommandView,
};
use crate::lists::lossy_texts;
use crate::numbers::{u16_of, u32_of, u64_of, usize_of};
use crate::operands::ClientUnblockType;
use crate::readings::ParseEnv;
use crate::resp::unnamed;
use crate::text::{lossy_text, spells, upper_word};
use super::{called, lemma_called, makes, refuses, verdict};

verus! {

/// What `AUTH` stands for.
pub proof fn law_auth(a: Seq<Seq<u8>>, env: &ParseEnv)
    requires
        called(a, "AUTH"@),
    ensures
        a.len() == 2 ==>
            makes(a, env, CommandView::Auth { username: None, password: lossy_text(a[1]) }),
        a.len() == 3 ==>
            makes(
                a,
                env,
                CommandView::Auth { username: Some(lossy_text(a[1])), password: lossy_text(a[2]) },
            ),
        a.len() != 2 && a.len() != 3 ==>
            refuses(a, env, "wrong number of arguments for 'auth' command"@),
{
    reveal(verdict);
    lemma_called(a);
    assert(named_command_spec(upper_word(a[0]), unnamed(a), env) == auth_spec(unnamed(a))) by {
        lemma_reach_server(upper_word(a[0]), unnamed(a), env);
        lemma_server_codes();
    }
}

/// What `ACL` stands for.
pub proof fn law_acl(a: Seq<Seq<u8>>, env: &ParseEnv)
    requires
        called(a, "ACL"@),
    ensures
        a.len() < 2 ==> refuses(a, env, "wrong number of arguments for 'acl' command"@),
        a.len() >= 2 && upper_word(a[1]) == "LIST"@ ==>
            makes(a, env, CommandView::Acl(AclSubcommandView::List)),
        a.len() >= 2 && upper_word(a[1]) == "USERS"@ ==>
            makes(a, env, CommandView::Acl(AclSubcommandView::Users)),
        a.len() >= 2 && upper_word(a[1]) == "WHOAMI"@ ==>
            makes(a, env, CommandView::Acl(AclSubcommandView::WhoAmI)),
        a.len() >= 2 && upper_word(a[1]) == "CAT"@ ==>
            makes(a, env, CommandView::Acl(AclSubcommandView::Cat)),
        a.len() >= 2 && upper_word(a[1]) == "GETUSER"@ && a.len() != 3 ==>
            refuses(a, env, "wrong number of arguments for 'acl|getuser' command"@),
        upper_word(a[1]) == "GETUSER"@ && a.len() == 3 ==>
            makes(a, env, CommandView::Acl(AclSubcommandView::GetUser(lossy_text(a[2])))),
        a.len() >= 2 && upper_word(a[1]) == "SETUSER"@ && a.len() < 3 ==>
            refuses(a, env, "wrong number of arguments for 'acl|setuser' command"@),
        a.len() >= 3 && upper_word(a[1]) == "SETUSER"@ ==>
            makes(
                a,
                env,
                CommandView::Acl(
                    AclSubcommandView::SetUser {
                        username: lossy_text(a[2]),
                        rules: lossy_texts(a.skip(3)),
                    },
                ),
            ),
        a.len() >= 2 && upper_word(a[1]) == "DELUSER"@ && a.len() < 3 ==>
            refuses(a, env, "wrong number of arguments for 'acl|deluser' command"@),
        a.len() >= 3 && upper_word(a[1]) == "DELUSER"@ ==>
            makes(a, env, CommandView::Acl(AclSubcommandView::DelUser(lossy_texts(a.skip(2))))),
        a.len() >= 2 && upper_word(a[1]) != "LIST"@ && upper_word(a[1]) != "USERS"@
            && upper_word(a[1]) != "WHOAMI"@ && upper_word(a[1]) != "CAT"@
            && upper_word(a[1]) != "GETUSER"@ && upper_word(a[1]) != "SETUSER"@
            && upper_word(a[1]) != "DELUSER"@ ==>
            refuses(a, env, "unknown subcommand '"@ + upper_word(a[1]) + "' for 'acl'"@),
{
    reveal(verdict);
    lemma_called(a);
    assert(named_command_spec(upper_word(a[0]), unnamed(a), env) == acl_spec(unnamed(a))) by {
        lemma_reach_server(upper_word(a[0]), unnamed(a), env);
        lemma_server_codes();
    }
    reveal(name_code);
    reveal_strlit("CAT");
    reveal_strlit("DELUSER");
    reveal_strlit("GETUSER");
    reveal_strlit("LIST");
    reveal_strlit("SETUSER");
    reveal_strlit("USERS");
    reveal_strlit("WHOAMI");
    assert(name_code("CAT"@) == 7394645195193903);
    assert(name_code("DELUSER"@) == 7506457403528307);
    assert(name_code("GETUSER"@) == 7836310891861107);
    assert(name_code("LIST"@) == 8387782563104904);
    assert(name_code("SETUSER"@) == 9155724845192307);
    assert(name_code("USERS"@) == 9381634639930105);
    assert(name_code("WHOAMI"@) == 9596784458476906);
}

/// What `CLUSTER` stands for, up to its options.
pub proof fn law_cluster(a: Seq<Seq<u8>>, env: &ParseEnv)
    requires
        called(a, "CLUSTER"@),
    ensures
        a.len() < 2 ==> refuses(a, env, "wrong number of arguments for 'cluster' command"@),
        a.len() >= 2 && upper_word(a[1]) == "KEYSLOT"@ && a.len() < 3 ==>
            refuses(a, env, "wrong number of arguments for 'cluster keyslot' command"@),
        a.len() >= 3 && upper_word(a[1]) == "KEYSLOT"@ ==>
            makes(a, env, CommandView::Cluster(ClusterSubcommandView::KeySlot(a[2]))),
        a.len() >= 2 && upper_word(a[1]) == "COUNTKEYSINSLOT"@ && a.len() < 3 ==>
            refuses(a, env, "wrong number of arguments for 'cluster countkeysinslot' command"@),
        a.len() >= 3 && upper_word(a[1]) == "COUNTKEYSINSLOT"@ && u16_of(a[2]) is None ==>
            refuses(a, env, "value is not an integer or out of range"@),
        a.len() >= 3 && upper_word(a[1]) == "COUNTKEYSINSLOT"@ && u16_of(a[2]) is Some ==>
            makes(
                a,
                env,
                CommandView::Cluster(ClusterSubcommandView::CountKeysInSlot(u16_of(a[2])->0)),
            ),
        a.len() >= 2 && upper_word(a[1]) == "GETKEYSINSLOT"@ && a.len() < 4 ==>
            refuses(a, env, "wrong number of arguments for 'cluster getkeysinslot' command"@),
        a.len() >= 4 && upper_word(a[1]) == "GETKEYSINSLOT"@ && u16_of(a[2]) is None ==>
            refuses(a, env, "value is not an integer or out of range"@),
        a.len() >= 4 && upper_word(a[1]) == "GETKEYSINSLOT"@ && u16_of(a[2]) is Some
            && usize_of(a[3]) is None ==>
            refuses(a, env, "value is not an integer or out of range"@),
        a.len() >= 4 && upper_word(a[1]) == "GETKEYSINSLOT"@ && u16_of(a[2]) is Some
            && usize_of(a[3]) is Some ==>
            makes(
                a,
                env,
                CommandView::Cluster(
                    ClusterSubcommandView::GetKeysInSlot(u16_of(a[2])->0, usize_of(a[3])->0),
                ),
            ),
        a.len() >= 2 && upper_word(a[1]) == "SETSLOT"@ && a.len() < 4 ==>
            refuses(a, env, "wrong number of arguments for 'cluster setslot' command"@),
        a.len() >= 4 && upper_word(a[1]) == "SETSLOT"@ && u16_of(a[2]) is None ==>
            refuses(a, env, "value is not an integer or out of range"@),
        a.len() >= 4 && upper_word(a[1]) == "SETSLOT"@ && u16_of(a[2]) is Some
            && upper_word(a[3]) == "MIGRATING"@ && a.len() < 5 ==>
            refuses(a, env, "wrong number of arguments for 'cluster setslot migrating' command"@),
        a.len() >= 5 && upper_word(a[1]) == "SETSLOT"@ && u16_of(a[2]) is Some
            && upper_word(a[3]) == "MIGRATING"@ ==>
            makes(
                a,
                env,
                CommandView::Cluster(
                    ClusterSubcommandView::SetSlot(
                        u16_of(a[2])->0,
                        SetSlotSubcommandView::Migrating(lossy_text(a[4])),
                    ),
                ),
            ),
        a.len() >= 4 && upper_word(a[1]) == "SETSLOT"@ && u16_of(a[2]) is Some
            && upper_word(a[3]) == "IMPORTING"@ && a.len() < 5 ==>
            refuses(a, env, "wrong number of arguments for 'cluster setslot importing' command"@),
        a.len() >= 5 && upper_word(a[1]) == "SETSLOT"@ && u16_of(a[2]) is Some
            && upper_word(a[3]) == "IMPORTING"@ ==>
            makes(
                a,
                env,
                CommandView::Cluster(
                    ClusterSubcommandView::SetSlot(
                        u16_of(a[2])->0,
                        SetSlotSubcommandView::Importing(lossy_text(a[4])),
                    ),
                ),
            ),
        a.len() >= 4 && upper_word(a[1]) == "SETSLOT"@ && u16_of(a[2]) is Some
            && upper_word(a[3]) == "STABLE"@ ==>
            makes(
                a,
                env,
                CommandView::Cluster(
                    ClusterSubcommandView::SetSlot(
                        u16_of(a[2])->0,
                        SetSlotSubcommandView::Stable,
                    ),
                ),
            ),
        a.len() >= 4 && upper_word(a[1]) == "SETSLOT"@ && u16_of(a[2]) is Some
            && upper_word(a[3]) == "NODE"@ && a.len() < 5 ==>
            refuses(a, env, "wrong number of arguments for 'cluster setslot node' command"@),
        a.len() >= 5 && upper_word(a[1]) == "SETSLOT"@ && u16_of(a[2]) is Some
            && upper_word(a[3]) == "NODE"@ ==>
            makes(
                a,
                env,
                CommandView::Cluster(
                    ClusterSubcommandView::SetSlot(
                        u16_of(a[2])->0,
                        SetSlotSubcommandView::Node(lossy_text(a[4])),
                    ),
                ),
            ),
        a.len() >= 4 && upper_word(a[1]) == "SETSLOT"@ && u16_of(a[2]) is Some
            && upper_word(a[3]) != "MIGRATING"@ && upper_word(a[3]) != "IMPORTING"@
            && upper_word(a[3]) != "STABLE"@ && upper_word(a[3]) != "NODE"@ ==>
            makes(a, env, CommandView::Unknown("CLUSTER SETSLOT "@ + upper_word(a[3]))),
        a.len() >= 2 && upper_word(a[1]) == "SLOTS"@ ==>
            makes(a, env, CommandView::Cluster(ClusterSubcommandView::Slots)),
        a.len() >= 2 && upper_word(a[1]) == "SHARDS"@ ==>
            makes(a, env, CommandView::Cluster(ClusterSubcommandView::Shards)),
        a.len() >= 2 && upper_word(a[1]) == "LINKS"@ ==>
            makes(a, env, CommandView::Cluster(ClusterSubcommandView::Links)),
        a.len() >= 2 && upper_word(a[1]) == "ADDSLOTS"@ && a.len() < 3 ==>
            refuses(a, env, "wrong number of arguments for 'cluster addslots' command"@),
        a.len() >= 2 && upper_word(a[1]) == "DELSLOTS"@ && a.len() < 3 ==>
            refuses(a, env, "wrong number of arguments for 'cluster delslots' command"@),
        a.len() >= 2 && upper_word(a[1]) != "KEYSLOT"@ && upper_word(a[1]) != "COUNTKEYSINSLOT"@
            && upper_word(a[1]) != "GETKEYSINSLOT"@ && upper_word(a[1]) != "SETSLOT"@
            && upper_word(a[1]) != "SLOTS"@ && upper_word(a[1]) != "SHARDS"@
            && upper_word(a[1]) != "LINKS"@ && upper_word(a[1]) != "ADDSLOTS"@
            && upper_word(a[1]) != "DELSLOTS"@
            && (upper_word(a[1]) == "ADDSLOTSRANGE"@ || upper_word(a[1]) == "ADDSLOTS-RANGE"@)
            && (a.len() < 4 || (a.len() - 2) % 2 != 0) ==>
            refuses(a, env, "wrong number of arguments for 'cluster addslotsrange' command"@),
        a.len() >= 2 && upper_word(a[1]) != "KEYSLOT"@ && upper_word(a[1]) != "COUNTKEYSINSLOT"@
            && upper_word(a[1]) != "GETKEYSINSLOT"@ && upper_word(a[1]) != "SETSLOT"@
            && upper_word(a[1]) != "SLOTS"@ && upper_word(a[1]) != "SHARDS"@
            && upper_word(a[1]) != "LINKS"@ && upper_word(a[1]) != "ADDSLOTS"@
            && upper_word(a[1]) != "DELSLOTS"@ && upper_word(a[1]) != "ADDSLOTSRANGE"@
            && upper_word(a[1]) != "ADDSLOTS-RANGE"@
            && (upper_word(a[1]) == "DELSLOTSRANGE"@ || upper_word(a[1]) == "DELSLOTS-RANGE"@)
            && (a.len() < 4 || (a.len() - 2) % 2 != 0) ==>
            refuses(a, env, "wrong number of arguments for 'cluster delslotsrange' command"@),
        a.len() >= 2 && upper_word(a[1]) == "NODES"@ ==>
            makes(a, env, CommandView::Cluster(ClusterSubcommandView::Nodes)),
        a.len() >= 2 && upper_word(a[1]) == "INFO"@ ==>
            makes(a, env, CommandView::Cluster(ClusterSubcommandView::Info)),
        a.len() >= 2 && upper_word(a[1]) == "MYID"@ ==>
            makes(a, env, CommandView::Cluster(ClusterSubcommandView::MyId)),
        a.len() >= 2 && upper_word(a[1]) == "MEET"@ && a.len() < 4 ==>
            refuses(a, env, "wrong number of arguments for 'cluster meet' command"@),
        a.len() >= 4 && upper_word(a[1]) == "MEET"@ && u16_of(a[3]) is None ==>
            refuses(a, env, "value is not an integer or out of range"@),
        a.len() >= 4 && upper_word(a[1]) == "MEET"@ && u16_of(a[3]) is Some ==>
            makes(
                a,
                env,
                CommandView::Cluster(
                    ClusterSubcommandView::Meet { ip: lossy_text(a[2]), port: u16_of(a[3])->0 },
                ),
            ),
        a.len() >= 2 && upper_word(a[1]) != "KEYSLOT"@ && upper_word(a[1]) != "COUNTKEYSINSLOT"@
            && upper_word(a[1]) != "GETKEYSINSLOT"@ && upper_word(a[1]) != "SETSLOT"@
            && upper_word(a[1]) != "SLOTS"@ && upper_word(a[1]) != "SHARDS"@
            && upper_word(a[1]) != "LINKS"@ && upper_word(a[1]) != "ADDSLOTS"@
            && upper_word(a[1]) != "DELSLOTS"@ && upper_word(a[1]) != "ADDSLOTSRANGE"@
            && upper_word(a[1]) != "ADDSLOTS-RANGE"@ && upper_word(a[1]) != "DELSLOTSRANGE"@
            && upper_word(a[1]) != "DELSLOTS-RANGE"@ && upper_word(a[1]) != "NODES"@
            && upper_word(a[1]) != "INFO"@ && upper_word(a[1]) != "MYID"@
            && upper_word(a[1]) != "MEET"@
            && (upper_word(a[1]) == "MIGRATE-SLOT"@ || upper_word(a[1]) == "MIGRATESLOT"@)
            && a.len() < 5 ==>
            refuses(a, env, "wrong number of arguments for 'cluster migrate-slot' command"@),
        a.len() >= 5 && upper_word(a[1]) != "KEYSLOT"@ && upper_word(a[1]) != "COUNTKEYSINSLOT"@
            && upper_word(a[1]) != "GETKEYSINSLOT"@ && upper_word(a[1]) != "SETSLOT"@
            && upper_word(a[1]) != "SLOTS"@ && upper_word(a[1]) != "SHARDS"@
            && upper_word(a[1]) != "LINKS"@ && upper_word(a[1]) != "ADDSLOTS"@
            && upper_word(a[1]) != "DELSLOTS"@ && upper_word(a[1]) != "ADDSLOTSRANGE"@
            && upper_word(a[1]) != "ADDSLOTS-RANGE"@ && upper_word(a[1]) != "DELSLOTSRANGE"@
            && upper_word(a[1]) != "DELSLOTS-RANGE"@ && upper_word(a[1]) != "NODES"@
            && upper_word(a[1]) != "INFO"@ && upper_word(a[1]) != "MYID"@
            && upper_word(a[1]) != "MEET"@
            && (upper_word(a[1]) == "MIGRATE-SLOT"@ || upper_word(a[1]) == "MIGRATESLOT"@)
            && u16_of(a[2]) is None ==>
            refuses(a, env, "value is not an integer or out of range"@),
        a.len() >= 5 && upper_word(a[1]) != "KEYSLOT"@ && upper_word(a[1]) != "COUNTKEYSINSLOT"@
            && upper_word(a[1]) != "GETKEYSINSLOT"@ && upper_word(a[1]) != "SETSLOT"@
            && upper_word(a[1]) != "SLOTS"@ && upper_word(a[1]) != "SHARDS"@
            && upper_word(a[1]) != "LINKS"@ && upper_word(a[1]) != "ADDSLOTS"@
            && upper_word(a[1]) != "DELSLOTS"@ && upper_word(a[1]) != "ADDSLOTSRANGE"@
            && upper_word(a[1]) != "ADDSLOTS-RANGE"@ && upper_word(a[1]) != "DELSLOTSRANGE"@
            && upper_word(a[1]) != "DELSLOTS-RANGE"@ && upper_word(a[1]) != "NODES"@
            && upper_word(a[1]) != "INFO"@ && upper_word(a[1]) != "MYID"@
            && upper_word(a[1]) != "MEET"@
            && (upper_word(a[1]) == "MIGRATE-SLOT"@ || upper_word(a[1]) == "MIGRATESLOT"@)
            && u16_of(a[2]) is Some && u16_of(a[4]) is None ==>
            refuses(a, env, "value is not an integer or out of range"@),
        a.len() >= 5 && upper_word(a[1]) != "KEYSLOT"@ && upper_word(a[1]) != "COUNTKEYSINSLOT"@
            && upper_word(a[1]) != "GETKEYSINSLOT"@ && upper_word(a[1]) != "SETSLOT"@
            && upper_word(a[1]) != "SLOTS"@ && upper_word(a[1]) != "SHARDS"@
            && upper_word(a[1]) != "LINKS"@ && upper_word(a[1]) != "ADDSLOTS"@
            && upper_word(a[1]) != "DELSLOTS"@ && upper_word(a[1]) != "ADDSLOTSRANGE"@
            && upper_word(a[1]) != "ADDSLOTS-RANGE"@ && upper_word(a[1]) != "DELSLOTSRANGE"@
            && upper_word(a[1]) != "DELSLOTS-RANGE"@ && upper_word(a[1]) != "NODES"@
            && upper_word(a[1]) != "INFO"@ && upper_word(a[1]) != "MYID"@
            && upper_word(a[1]) != "MEET"@
            && (upper_word(a[1]) == "MIGRATE-SLOT"@ || upper_word(a[1]) == "MIGRATESLOT"@)
            && u16_of(a[2]) is Some && u16_of(a[4]) is Some ==>
            makes(
                a,
                env,
                CommandView::Cluster(
                    ClusterSubcommandView::MigrateSlot {
                        slot: u16_of(a[2])->0,
                        host: lossy_text(a[3]),
                        port: u16_of(a[4])->0,
                    },
                ),
            ),
        a.len() >= 2 && upper_word(a[1]) == "CHECK"@ ==>
            makes(a, env, CommandView::Cluster(ClusterSubcommandView::Check)),
        a.len() >= 2 && upper_word(a[1]) == "RESHARD"@ && a.len() < 5 ==>
            refuses(a, env, "wrong number of arguments for 'cluster reshard' command"@),
        a.len() >= 5 && upper_word(a[1]) == "RESHARD"@ && usize_of(a[4]) is None ==>
            refuses(a, env, "value is not an integer or out of range"@),
        a.len() >= 5 && upper_word(a[1]) == "RESHARD"@ && usize_of(a[4]) is Some ==>
            makes(
                a,
                env,
                CommandView::Cluster(
                    ClusterSubcommandView::Reshard {
                        target_node_id: lossy_text(a[2]),
                        source_node_id: lossy_text(a[3]),
                        slots: usize_of(a[4])->0,
                    },
                ),
            ),
        a.len() >= 2 && upper_word(a[1]) == "FAILOVER"@ ==>
            makes(
                a,
                env,
                CommandView::Cluster(
                    ClusterSubcommandView::Failover {
                        force: a.len() > 2 && spells(a[2], "FORCE"@),
                    },
                ),
            ),
        a.len() >= 2 && upper_word(a[1]) == "RESET"@ ==>
            makes(
                a,
                env,
                CommandView::Cluster(
                    ClusterSubcommandView::Reset { hard: a.len() > 2 && spells(a[2], "HARD"@) },
                ),
            ),
        a.len() >= 2 && upper_word(a[1]) == "FORGET"@ && a.len() < 3 ==>
            refuses(a, env, "wrong number of arguments for 'cluster forget' command"@),
        a.len() >= 3 && upper_word(a[1]) == "FORGET"@ ==>
            makes(a, env, CommandView::Cluster(ClusterSubcommandView::Forget(lossy_text(a[2])))),
        a.len() >= 2 && upper_word(a[1]) == "REPLICATE"@ && a.len() < 3 ==>
            refuses(a, env, "wrong number of arguments for 'cluster replicate' command"@),
        a.len() >= 3 && upper_word(a[1]) == "REPLICATE"@ ==>
            makes(a, env, CommandView::Cluster(ClusterSubcommandView::Replicate(lossy_text(a[2])))),
        a.len() >= 2 && upper_word(a[1]) == "SAVECONFIG"@ ==>
            makes(a, env, CommandView::Cluster(ClusterSubcommandView::SaveConfig)),
        a.len() >= 2 && upper_word(a[1]) != "KEYSLOT"@ && upper_word(a[1]) != "COUNTKEYSINSLOT"@
            && upper_word(a[1]) != "GETKEYSINSLOT"@ && upper_word(a[1]) != "SETSLOT"@
            && upper_word(a[1]) != "SLOTS"@ && upper_word(a[1]) != "SHARDS"@
            && upper_word(a[1]) != "LINKS"@ && upper_word(a[1]) != "ADDSLOTS"@
            && upper_word(a[1]) != "DELSLOTS"@ && upper_word(a[1]) != "ADDSLOTSRANGE"@
            && upper_word(a[1]) != "ADDSLOTS-RANGE"@ && upper_word(a[1]) != "DELSLOTSRANGE"@
            && upper_word(a[1]) != "DELSLOTS-RANGE"@ && upper_word(a[1]) != "NODES"@
            && upper_word(a[1]) != "INFO"@ && upper_word(a[1]) != "MYID"@
            && upper_word(a[1]) != "MEET"@ && upper_word(a[1]) != "MIGRATE-SLOT"@
            && upper_word(a[1]) != "MIGRATESLOT"@ && upper_word(a[1]) != "REBALANCE"@
            && upper_word(a[1]) != "CHECK"@ && upper_word(a[1]) != "RESHARD"@
            && upper_word(a[1]) != "FAILOVER"@ && upper_word(a[1]) != "RESET"@
            && upper_word(a[1]) != "FORGET"@ && upper_word(a[1]) != "REPLICATE"@
            && upper_word(a[1]) != "SAVECONFIG"@ ==>
            makes(a, env, CommandView::Unknown("CLUSTER "@ + upper_word(a[1]))),
{
    reveal(verdict);
    lemma_called(a);
    assert(named_command_spec(
        upper_word(a[0]),
        unnamed(a),
        env,
    ) == cluster_spec(unnamed(a), env)) by {
        lemma_reach_server(upper_word(a[0]), unnamed(a), env);
        lemma_server_codes();
    }
    reveal(name_code);
    reveal_strlit("ADDSLOTS");
    reveal_strlit("ADDSLOTS-RANGE");
    reveal_strlit("ADDSLOTSRANGE");
    reveal_strlit("CHECK");
    reveal_strlit("COUNTKEYSINSLOT");
    reveal_strlit("DELSLOTS");
    reveal_strlit("DELSLOTS-RANGE");
    reveal_strlit("DELSLOTSRANGE");
    reveal_strlit("FAILOVER");
    reveal_strlit("FORGET");
    reveal_strlit("GETKEYSINSLOT");
    reveal_strlit("IMPORTING");
    reveal_strlit("INFO");
    reveal_strlit("KEYSLOT");
    reveal_strlit("LINKS");
    reveal_strlit("MEET");
    reveal_strlit("MIGRATE-SLOT");
    reveal_strlit("MIGRATESLOT");
    reveal_strlit("MIGRATING");
    reveal_strlit("MYID");
    reveal_strlit("NODE");
    reveal_strlit("NODES");
    reveal_strlit("REBALANCE");
    reveal_strlit("REPLICATE");
    reveal_strlit("RESET");
    reveal_strlit("RESHARD");
    reveal_strlit("SAVECONFIG");
    reveal_strlit("SETSLOT");
    reveal_strlit("SHARDS");
    reveal_strlit("SLOTS");
    reveal_strlit("STABLE");
    assert(name_code("ADDSLOTS"@) == 7176171128942308);
    assert(name_code("ADDSLOTS-RANGE"@) == 7176171128609414);
    assert(name_code("ADDSLOTSRANGE"@) == 7176171128609413);
    assert(name_code("CHECK"@) == 7397764079699705);
    assert(name_code("COUNTKEYSINSLOT"@) == 7400789503572415);
    assert(name_code("DELSLOTS"@) == 7506454114004708);
    assert(name_code("DELSLOTS-RANGE"@) == 7506454113671814);
    assert(name_code("DELSLOTSRANGE"@) == 7506454113671813);
    assert(name_code("FAILOVER"@) == 7724626754082208);
    assert(name_code("FORGET"@) == 7730631306579906);
    assert(name_code("GETKEYSINSLOT"@) == 7836294245972413);
    assert(name_code("IMPORTING"@) == 8059639223456909);
    assert(name_code("INFO"@) == 8060068169479804);
    assert(name_code("KEYSLOT"@) == 8276112253319607);
    assert(name_code("LINKS"@) == 8387767463406205);
    assert(name_code("MEET"@) == 8496015738605304);
    assert(name_code("MIGRATE-SLOT"@) == 8497730920839612);
    assert(name_code("MIGRATESLOT"@) == 8497730920839611);
    assert(name_code("MIGRATING"@) == 8497730920813709);
    assert(name_code("MYID"@) == 8504578829756104);
    assert(name_code("NODE"@) == 8610236702830304);
    assert(name_code("NODES"@) == 8610236702854805);
    assert(name_code("REBALANCE"@) == 9045740101716609);
    assert(name_code("REPLICATE"@) == 9045758570195309);
    assert(name_code("RESET"@) == 9045746386670705);
    assert(name_code("RESHARD"@) == 9045751957561707);
    assert(name_code("SAVECONFIG"@) == 9153980080365410);
    assert(name_code("SETSLOT"@) == 9155721555540407);
    assert(name_code("SHARDS"@) == 9157008393941006);
    assert(name_code("SLOTS"@) == 9158729192763105);
    assert(name_code("STABLE"@) == 9162135419603406);
}

/// What `ASKING` stands for.
pub proof fn law_asking(a: Seq<Seq<u8>>, env: &ParseEnv)
    requires
        called(a, "ASKING"@),
    ensures
        makes(a, env, CommandView::Asking),
{
    reveal(verdict);
    lemma_called(a);
    assert(named_command_spec(upper_word(a[0]), unnamed(a), env) == asking_spec(unnamed(a))) by {
        lemma_reach_server(upper_word(a[0]), unnamed(a), env);
        lemma_server_codes();
    }
}

/// What `MIGRATE` stands for, up to its options.
pub proof fn law_migrate(a: Seq<Seq<u8>>, env: &ParseEnv)
    requires
        called(a, "MIGRATE"@),
    ensures
        a.len() < 6 ==> refuses(a, env, "wrong number of arguments for 'migrate' command"@),
        a.len() >= 6 && u16_of(a[2]) is None ==>
            refuses(a, env, "value is not an integer or out of range"@),
        a.len() >= 6 && u16_of(a[2]) is Some && u32_of(a[4]) is None ==>
            refuses(a, env, "value is not an integer or out of range"@),
        a.len() >= 6 && u16_of(a[2]) is Some && u32_of(a[4]) is Some && u64_of(a[5]) is None ==>
            refuses(a, env, "value is not an integer or out of range"@),
{
    reveal(verdict);
    lemma_called(a);
    assert(named_command_spec(upper_word(a[0]), unnamed(a), env) == migrate_spec(unnamed(a))) by {
        lemma_reach_server(upper_word(a[0]), unnamed(a), env);
        lemma_server_codes();
    }
}

/// What `CLIENT` stands for, up to its options.
pub proof fn law_client(a: Seq<Seq<u8>>, env: &ParseEnv)
    requires
        called(a, "CLIENT"@),
    ensures
        a.len() < 2 ==> refuses(a, env, "wrong number of arguments for 'client' command"@),
        a.len() >= 2 && upper_word(a[1]) == "INFO"@ ==>
            makes(a, env, CommandView::Client(ClientSubcommandView::Info)),
        a.len() >= 2 && upper_word(a[1]) == "SETNAME"@ && a.len() < 3 ==>
            refuses(a, env, "wrong number of arguments for 'client setname' command"@),
        a.len() >= 3 && upper_word(a[1]) == "SETNAME"@ ==>
            makes(a, env, CommandView::Client(ClientSubcommandView::SetName(lossy_text(a[2])))),
        a.len() >= 2 && upper_word(a[1]) == "GETNAME"@ ==>
            makes(a, env, CommandView::Client(ClientSubcommandView::GetName)),
        a.len() >= 2 && upper_word(a[1]) == "ID"@ ==>
            makes(a, env, CommandView::Client(ClientSubcommandView::Id)),
        a.len() >= 2 && upper_word(a[1]) == "KILL"@ ==>
            makes(a, env, CommandView::Client(ClientSubcommandView::Kill(a.skip(2)))),
        a.len() >= 2 && upper_word(a[1]) == "TRACKING"@ && a.len() < 3 ==>
            refuses(a, env, "wrong number of arguments for 'client tracking' command"@),
        a.len() >= 3 && upper_word(a[1]) == "TRACKING"@ && upper_word(a[2]) != "ON"@
            && upper_word(a[2]) != "OFF"@ ==>
            refuses(a, env, "syntax error: expected 'on' or 'off'"@),
        a.len() >= 2 && upper_word(a[1]) == "CACHING"@ && a.len() < 3 ==>
            refuses(a, env, "wrong number of arguments for 'client caching' command"@),
        a.len() >= 3 && upper_word(a[1]) == "CACHING"@ ==>
            makes(
                a,
                env,
                CommandView::Client(ClientSubcommandView::Caching(upper_word(a[2]) == "YES"@)),
            ),
        a.len() >= 2 && upper_word(a[1]) == "UNBLOCK"@ && (a.len() < 3 || a.len() > 4) ==>
            refuses(a, env, "wrong number of arguments for 'client unblock' command"@),
        a.len() >= 3 && upper_word(a[1]) == "UNBLOCK"@ && a.len() <= 4 && u64_of(a[2]) is None ==>
            refuses(a, env, "value is not an integer or out of range"@),
        upper_word(a[1]) == "UNBLOCK"@ && u64_of(a[2]) is Some && a.len() == 4
            && upper_word(a[3]) == "TIMEOUT"@ ==>
            makes(
                a,
                env,
                CommandView::Client(
                    ClientSubcommandView::Unblock {
                        client_id: u64_of(a[2])->0,
                        unblock_type: ClientUnblockType::Timeout,
                    },
                ),
            ),
        upper_word(a[1]) == "UNBLOCK"@ && u64_of(a[2]) is Some && a.len() == 4
            && upper_word(a[3]) == "ERROR"@ ==>
            makes(
                a,
                env,
                CommandView::Client(
                    ClientSubcommandView::Unblock {
                        client_id: u64_of(a[2])->0,
                        unblock_type: ClientUnblockType::Error,
                    },
                ),
            ),
        upper_word(a[1]) == "UNBLOCK"@ && u64_of(a[2]) is Some && a.len() == 4
            && upper_word(a[3]) != "TIMEOUT"@ && upper_word(a[3]) != "ERROR"@ ==>
            refuses(a, env, "syntax error"@),
        a.len() >= 3 && upper_word(a[1]) == "UNBLOCK"@ && a.len() <= 4 && u64_of(a[2]) is Some
            && a.len() != 4 ==>
            makes(
                a,
                env,
                CommandView::Client(
                    ClientSubcommandView::Unblock {
                        client_id: u64_of(a[2])->0,
                        unblock_type: ClientUnblockType::Timeout,
                    },
                ),
            ),
        a.len() >= 2 && upper_word(a[1]) == "PAUSE"@ && a.len() < 3 ==>
            refuses(a, env, "wrong number of arguments for 'client pause' command"@),
        a.len() >= 3 && upper_word(a[1]) == "PAUSE"@ && u64_of(a[2]) is None ==>
            refuses(a, env, "value is not an integer or out of range"@),
        a.len() >= 3 && upper_word(a[1]) == "PAUSE"@ && u64_of(a[2]) is Some ==>
            makes(a, env, CommandView::Client(ClientSubcommandView::Pause(u64_of(a[2])->0))),
        a.len() >= 2 && upper_word(a[1]) == "UNPAUSE"@ ==>
            makes(a, env, CommandView::Client(ClientSubcommandView::Unpause)),
        a.len() >= 2 && upper_word(a[1]) == "NO-TOUCH"@ && a.len() < 3 ==>
            refuses(a, env, "wrong number of arguments for 'client no-touch' command"@),
        a.len() >= 3 && upper_word(a[1]) == "NO-TOUCH"@ ==>
            makes(
                a,
                env,
                CommandView::Client(
                    ClientSubcommandView::NoTouch(
                        upper_word(a[2]) == "ON"@ || upper_word(a[2]) == "YES"@ || upper_word(a[2]) == "1"@,
                    ),
                ),
            ),
        a.len() >= 2 && upper_word(a[1]) != "LIST"@ && upper_word(a[1]) != "INFO"@
            && upper_word(a[1]) != "SETNAME"@ && upper_word(a[1]) != "GETNAME"@
            && upper_word(a[1]) != "ID"@ && upper_word(a[1]) != "KILL"@
            && upper_word(a[1]) != "TRACKING"@ && upper_word(a[1]) != "CACHING"@
            && upper_word(a[1]) != "UNBLOCK"@ && upper_word(a[1]) != "PAUSE"@
            && upper_word(a[1]) != "UNPAUSE"@ && upper_word(a[1]) != "NO-TOUCH"@ ==>
            makes(a, env, CommandView::Unknown("CLIENT "@ + upper_word(a[1]))),
{
    reveal(verdict);
    lemma_called(a);
    assert(named_command_spec(upper_word(a[0]), unnamed(a), env) == client_spec(unnamed(a))) by {
        lemma_reach_server(upper_word(a[0]), unnamed(a), env);
        lemma_server_codes();
    }
    reveal(name_code);
    reveal_strlit("1");
    reveal_strlit("CACHING");
    reveal_strlit("ERROR");
    reveal_strlit("GETNAME");
    reveal_strlit("ID");
    reveal_strlit("INFO");
    reveal_strlit("KILL");
    reveal_strlit("LIST");
    reveal_strlit("NO-TOUCH");
    reveal_strlit("OFF");
    reveal_strlit("ON");
    reveal_strlit("PAUSE");
    reveal_strlit("SETNAME");
    reveal_strlit("TIMEOUT");
    reveal_strlit("TRACKING");
    reveal_strlit("UNBLOCK");
    reveal_strlit("UNPAUSE");
    reveal_strlit("YES");
    assert(name_code("1"@) == 5387606976102401);
    assert(name_code("CACHING"@) == 7394766502663307);
    assert(name_code("ERROR"@) == 7621981505518605);
    assert(name_code("GETNAME"@) == 7836299200441707);
    assert(name_code("ID"@) == 8055640662246402);
    assert(name_code("INFO"@) == 8060068169479804);
    assert(name_code("KILL"@) == 8277817978375304);
    assert(name_code("LIST"@) == 8387782563104904);
    assert(name_code("NO-TOUCH"@) == 8610262425685308);
    assert(name_code("OFF"@) == 8716206632302303);
    assert(name_code("ON"@) == 8719642606361602);
    assert(name_code("PAUSE"@) == 8824149562658105);
    assert(name_code("SETNAME"@) == 9155713153772907);
    assert(name_code("TIMEOUT"@) == 9267367256609507);
    assert(name_code("TRACKING"@) == 9271229292909708);
    assert(name_code("UNBLOCK"@) == 9379477528660707);
    assert(name_code("UNPAUSE"@) == 9379459178990907);
    assert(name_code("YES"@) == 9815288763324103);
}

} // verus!
