//! What some commands on access, the cluster and clients are made of, shape by shape.
use vstd::prelude::*;

use crate::build::named_command_spec;
use crate::build::naming::{lemma_reach_server, lemma_server_codes, name_code};
use crate::build::server::{
    client_ids, client_list_options, client_spec, cluster_spec, migrate_options, migrate_spec,
    slot_ranges_from, slots_from, tracking_options,
};
use crate::command::{ClientSubcommandView, ClusterSubcommandView, CommandView};
use crate::numbers::{u16_of, u32_of, u64_of};
use crate::readings::ParseEnv;
use crate::resp::unnamed;
use crate::text::{lossy_text, upper_word};
use super::{called, lemma_called, makes, verdict};

verus! {

/// Keys that go to another server: where to, which, and whether they stay here or replace those there.
pub proof fn law_migrate_shapes(a: Seq<Seq<u8>>, env: &ParseEnv)
    requires
        called(a, "MIGRATE"@),
        a.len() >= 6,
        u16_of(a[2]) is Some,
        u32_of(a[4]) is Some,
        u64_of(a[5]) is Some,
    ensures
        a.len() == 6 && a[3].len() > 0 ==>
            makes(
                a,
                env,
                CommandView::Migrate {
                    host: lossy_text(a[1]),
                    port: u16_of(a[2])->0,
                    key: Some(a[3]),
                    keys: Seq::empty(),
                    destination_db: u32_of(a[4])->0,
                    timeout_ms: u64_of(a[5])->0,
                    copy: false,
                    replace: false,
                },
            ),
        a.len() == 7 && a[3].len() > 0 && upper_word(a[6]) == "COPY"@ ==>
            makes(
                a,
                env,
                CommandView::Migrate {
                    host: lossy_text(a[1]),
                    port: u16_of(a[2])->0,
                    key: Some(a[3]),
                    keys: Seq::empty(),
                    destination_db: u32_of(a[4])->0,
                    timeout_ms: u64_of(a[5])->0,
                    copy: true,
                    replace: false,
                },
            ),
        a.len() == 7 && a[3].len() > 0 && upper_word(a[6]) == "REPLACE"@ ==>
            makes(
                a,
                env,
                CommandView::Migrate {
                    host: lossy_text(a[1]),
                    port: u16_of(a[2])->0,
                    key: Some(a[3]),
                    keys: Seq::empty(),
                    destination_db: u32_of(a[4])->0,
                    timeout_ms: u64_of(a[5])->0,
                    copy: false,
                    replace: true,
                },
            ),
        a.len() >= 7 && a[3].len() == 0 && upper_word(a[6]) == "KEYS"@ ==>
            makes(
                a,
                env,
                CommandView::Migrate {
                    host: lossy_text(a[1]),
                    port: u16_of(a[2])->0,
                    key: None,
                    keys: a.skip(7),
                    destination_db: u32_of(a[4])->0,
                    timeout_ms: u64_of(a[5])->0,
                    copy: false,
                    replace: false,
                },
            ),
{
    reveal(verdict);
    lemma_called(a);
    assert(named_command_spec(upper_word(a[0]), unnamed(a), env) == migrate_spec(unnamed(a))) by {
        lemma_reach_server(upper_word(a[0]), unnamed(a), env);
        lemma_server_codes();
    }
    reveal(name_code);
    reveal_strlit("COPY");
    reveal_strlit("KEYS");
    reveal_strlit("REPLACE");
    assert(name_code("COPY"@) == 7400807467015904);
    assert(name_code("KEYS"@) == 8276111735840504);
    assert(name_code("REPLACE"@) == 9045758569760107);
    reveal_with_fuel(migrate_options, 3);
}

/// Whether keys are tracked for a client, and which.
pub proof fn law_client_tracking_shapes(a: Seq<Seq<u8>>, env: &ParseEnv)
    requires
        called(a, "CLIENT"@),
        a.len() >= 3,
        upper_word(a[1]) == "TRACKING"@,
    ensures
        a.len() == 3 && upper_word(a[2]) == "ON"@ ==>
            makes(
                a,
                env,
                CommandView::Client(
                    ClientSubcommandView::Tracking {
                        enabled: true,
                        bcast: false,
                        prefixes: Seq::empty(),
                    },
                ),
            ),
        a.len() == 3 && upper_word(a[2]) == "OFF"@ ==>
            makes(
                a,
                env,
                CommandView::Client(
                    ClientSubcommandView::Tracking {
                        enabled: false,
                        bcast: false,
                        prefixes: Seq::empty(),
                    },
                ),
            ),
        a.len() == 4 && upper_word(a[2]) == "ON"@ && upper_word(a[3]) == "BCAST"@ ==>
            makes(
                a,
                env,
                CommandView::Client(
                    ClientSubcommandView::Tracking {
                        enabled: true,
                        bcast: true,
                        prefixes: Seq::empty(),
                    },
                ),
            ),
        a.len() == 6 && upper_word(a[2]) == "ON"@ && upper_word(a[3]) == "BCAST"@
            && upper_word(a[4]) == "PREFIX"@ ==>
            makes(
                a,
                env,
                CommandView::Client(
                    ClientSubcommandView::Tracking {
                        enabled: true,
                        bcast: true,
                        prefixes: seq![a[5]],
                    },
                ),
            ),
{
    reveal(verdict);
    lemma_called(a);
    assert(named_command_spec(upper_word(a[0]), unnamed(a), env) == client_spec(unnamed(a))) by {
        lemma_reach_server(upper_word(a[0]), unnamed(a), env);
        lemma_server_codes();
    }
    reveal(name_code);
    reveal_strlit("1");
    reveal_strlit("BCAST");
    reveal_strlit("CACHING");
    reveal_strlit("GETNAME");
    reveal_strlit("ID");
    reveal_strlit("INFO");
    reveal_strlit("KILL");
    reveal_strlit("LIST");
    reveal_strlit("NO-TOUCH");
    reveal_strlit("OFF");
    reveal_strlit("ON");
    reveal_strlit("PAUSE");
    reveal_strlit("PREFIX");
    reveal_strlit("SETNAME");
    reveal_strlit("TRACKING");
    reveal_strlit("UNBLOCK");
    reveal_strlit("UNPAUSE");
    reveal_strlit("YES");
    assert(name_code("1"@) == 5387606976102401);
    assert(name_code("BCAST"@) == 7285692277228905);
    assert(name_code("CACHING"@) == 7394766502663307);
    assert(name_code("GETNAME"@) == 7836299200441707);
    assert(name_code("ID"@) == 8055640662246402);
    assert(name_code("INFO"@) == 8060068169479804);
    assert(name_code("KILL"@) == 8277817978375304);
    assert(name_code("LIST"@) == 8387782563104904);
    assert(name_code("NO-TOUCH"@) == 8610262425685308);
    assert(name_code("OFF"@) == 8716206632302303);
    assert(name_code("ON"@) == 8719642606361602);
    assert(name_code("PAUSE"@) == 8824149562658105);
    assert(name_code("PREFIX"@) == 8831429773139806);
    assert(name_code("SETNAME"@) == 9155713153772907);
    assert(name_code("TRACKING"@) == 9271229292909708);
    assert(name_code("UNBLOCK"@) == 9379477528660707);
    assert(name_code("UNPAUSE"@) == 9379459178990907);
    assert(name_code("YES"@) == 9815288763324103);
    reveal_with_fuel(tracking_options, 4);
    assert(Seq::<Seq<u8>>::empty().push(a[5]) =~= seq![a[5]]);
}

/// The clients that are listed: all, or those that are named.
pub proof fn law_client_list_shapes(a: Seq<Seq<u8>>, env: &ParseEnv)
    requires
        called(a, "CLIENT"@),
        a.len() >= 2,
        upper_word(a[1]) == "LIST"@,
    ensures
        a.len() == 2 ==>
            makes(a, env, CommandView::Client(ClientSubcommandView::List(Seq::empty()))),
        a.len() == 4 && upper_word(a[2]) == "ID"@ && u64_of(a[3]) is Some ==>
            makes(a, env, CommandView::Client(ClientSubcommandView::List(seq![u64_of(a[3])->0]))),
{
    reveal(verdict);
    lemma_called(a);
    assert(named_command_spec(upper_word(a[0]), unnamed(a), env) == client_spec(unnamed(a))) by {
        lemma_reach_server(upper_word(a[0]), unnamed(a), env);
        lemma_server_codes();
    }
    reveal(name_code);
    reveal_strlit("1");
    reveal_strlit("CACHING");
    reveal_strlit("GETNAME");
    reveal_strlit("ID");
    reveal_strlit("INFO");
    reveal_strlit("KILL");
    reveal_strlit("LIST");
    reveal_strlit("NO-TOUCH");
    reveal_strlit("ON");
    reveal_strlit("PAUSE");
    reveal_strlit("SETNAME");
    reveal_strlit("TRACKING");
    reveal_strlit("UNBLOCK");
    reveal_strlit("UNPAUSE");
    reveal_strlit("YES");
    assert(name_code("1"@) == 5387606976102401);
    assert(name_code("CACHING"@) == 7394766502663307);
    assert(name_code("GETNAME"@) == 7836299200441707);
    assert(name_code("ID"@) == 8055640662246402);
    assert(name_code("INFO"@) == 8060068169479804);
    assert(name_code("KILL"@) == 8277817978375304);
    assert(name_code("LIST"@) == 8387782563104904);
    assert(name_code("NO-TOUCH"@) == 8610262425685308);
    assert(name_code("ON"@) == 8719642606361602);
    assert(name_code("PAUSE"@) == 8824149562658105);
    assert(name_code("SETNAME"@) == 9155713153772907);
    assert(name_code("TRACKING"@) == 9271229292909708);
    assert(name_code("UNBLOCK"@) == 9379477528660707);
    assert(name_code("UNPAUSE"@) == 9379459178990907);
    assert(name_code("YES"@) == 9815288763324103);
    reveal_with_fuel(client_list_options, 3);
    reveal_with_fuel(client_ids, 3);
    assert(Seq::<u64>::empty().push(u64_of(a[3])->0) =~= seq![u64_of(a[3])->0]);
}

/// Slots that a server is given or loses.
pub proof fn law_cluster_addslots_shapes(a: Seq<Seq<u8>>, env: &ParseEnv)
    requires
        called(a, "CLUSTER"@),
        a.len() == 3,
        upper_word(a[1]) == "ADDSLOTS"@,
        u16_of(a[2]) is Some,
    ensures
        makes(a, env, CommandView::Cluster(ClusterSubcommandView::AddSlots(seq![u16_of(a[2])->0]))),
{
    reveal(verdict);
    lemma_called(a);
    assert(named_command_spec(
        upper_word(a[0]),
        unnamed(a),
        env,
    ) == cluster_spec(unnamed(a), env)) by {
        lemma_reach_server(upper_word(a[0]), unnamed(a), env);
        lemma_server_codes();
    }
    reveal(name_code);
    reveal_strlit("ADDSLOTS");
    reveal_strlit("ADDSLOTS-RANGE");
    reveal_strlit("ADDSLOTSRANGE");
    reveal_strlit("CHECK");
    reveal_strlit("COUNTKEYSINSLOT");
    reveal_strlit("DELSLOTS");
    reveal_strlit("DELSLOTS-RANGE");
    reveal_strlit("DELSLOTSRANGE");
    reveal_strlit("FAILOVER");
    reveal_strlit("FORGET");
    reveal_strlit("GETKEYSINSLOT");
    reveal_strlit("INFO");
    reveal_strlit("KEYSLOT");
    reveal_strlit("LINKS");
    reveal_strlit("MEET");
    reveal_strlit("MIGRATE-SLOT");
    reveal_strlit("MIGRATESLOT");
    reveal_strlit("MYID");
    reveal_strlit("NODES");
    reveal_strlit("REBALANCE");
    reveal_strlit("REPLICATE");
    reveal_strlit("RESET");
    reveal_strlit("RESHARD");
    reveal_strlit("SAVECONFIG");
    reveal_strlit("SETSLOT");
    reveal_strlit("SHARDS");
    reveal_strlit("SLOTS");
    assert(name_code("ADDSLOTS"@) == 7176171128942308);
    assert(name_code("ADDSLOTS-RANGE"@) == 7176171128609414);
    assert(name_code("ADDSLOTSRANGE"@) == 7176171128609413);
    assert(name_code("CHECK"@) == 7397764079699705);
    assert(name_code("COUNTKEYSINSLOT"@) == 7400789503572415);
    assert(name_code("DELSLOTS"@) == 7506454114004708);
    assert(name_code("DELSLOTS-RANGE"@) == 7506454113671814);
    assert(name_code("DELSLOTSRANGE"@) == 7506454113671813);
    assert(name_code("FAILOVER"@) == 7724626754082208);
    assert(name_code("FORGET"@) == 7730631306579906);
    assert(name_code("GETKEYSINSLOT"@) == 7836294245972413);
    assert(name_code("INFO"@) == 8060068169479804);
    assert(name_code("KEYSLOT"@) == 8276112253319607);
    assert(name_code("LINKS"@) == 8387767463406205);
    assert(name_code("MEET"@) == 8496015738605304);
    assert(name_code("MIGRATE-SLOT"@) == 8497730920839612);
    assert(name_code("MIGRATESLOT"@) == 8497730920839611);
    assert(name_code("MYID"@) == 8504578829756104);
    assert(name_code("NODES"@) == 8610236702854805);
    assert(name_code("REBALANCE"@) == 9045740101716609);
    assert(name_code("REPLICATE"@) == 9045758570195309);
    assert(name_code("RESET"@) == 9045746386670705);
    assert(name_code("RESHARD"@) == 9045751957561707);
    assert(name_code("SAVECONFIG"@) == 9153980080365410);
    assert(name_code("SETSLOT"@) == 9155721555540407);
    assert(name_code("SHARDS"@) == 9157008393941006);
    assert(name_code("SLOTS"@) == 9158729192763105);
    reveal_with_fuel(slots_from, 3);
    assert(Seq::<u16>::empty().push(u16_of(a[2])->0) =~= seq![u16_of(a[2])->0]);
}

/// Slots that a server is given or loses.
pub proof fn law_cluster_delslots_shapes(a: Seq<Seq<u8>>, env: &ParseEnv)
    requires
        called(a, "CLUSTER"@),
        a.len() == 3,
        upper_word(a[1]) == "DELSLOTS"@,
        u16_of(a[2]) is Some,
    ensures
        makes(a, env, CommandView::Cluster(ClusterSubcommandView::DelSlots(seq![u16_of(a[2])->0]))),
{
    reveal(verdict);
    lemma_called(a);
    assert(named_command_spec(
        upper_word(a[0]),
        unnamed(a),
        env,
    ) == cluster_spec(unnamed(a), env)) by {
        lemma_reach_server(upper_word(a[0]), unnamed(a), env);
        lemma_server_codes();
    }
    reveal(name_code);
    reveal_strlit("ADDSLOTS");
    reveal_strlit("ADDSLOTS-RANGE");
    reveal_strlit("ADDSLOTSRANGE");
    reveal_strlit("CHECK");
    reveal_strlit("COUNTKEYSINSLOT");
    reveal_strlit("DELSLOTS");
    reveal_strlit("DELSLOTS-RANGE");
    reveal_strlit("DELSLOTSRANGE");
    reveal_strlit("FAILOVER");
    reveal_strlit("FORGET");
    reveal_strlit("GETKEYSINSLOT");
    reveal_strlit("INFO");
    reveal_strlit("KEYSLOT");
    reveal_strlit("LINKS");
    reveal_strlit("MEET");
    reveal_strlit("MIGRATE-SLOT");
    reveal_strlit("MIGRATESLOT");
    reveal_strlit("MYID");
    reveal_strlit("NODES");
    reveal_strlit("REBALANCE");
    reveal_strlit("REPLICATE");
    reveal_strlit("RESET");
    reveal_strlit("RESHARD");
    reveal_strlit("SAVECONFIG");
    reveal_strlit("SETSLOT");
    reveal_strlit("SHARDS");
    reveal_strlit("SLOTS");
    assert(name_code("ADDSLOTS"@) == 7176171128942308);
    assert(name_code("ADDSLOTS-RANGE"@) == 7176171128609414);
    assert(name_code("ADDSLOTSRANGE"@) == 7176171128609413);
    assert(name_code("CHECK"@) == 7397764079699705);
    assert(name_code("COUNTKEYSINSLOT"@) == 7400789503572415);
    assert(name_code("DELSLOTS"@) == 7506454114004708);
    assert(name_code("DELSLOTS-RANGE"@) == 7506454113671814);
    assert(name_code("DELSLOTSRANGE"@) == 7506454113671813);
    assert(name_code("FAILOVER"@) == 7724626754082208);
    assert(name_code("FORGET"@) == 7730631306579906);
    assert(name_code("GETKEYSINSLOT"@) == 7836294245972413);
    assert(name_code("INFO"@) == 8060068169479804);
    assert(name_code("KEYSLOT"@) == 8276112253319607);
    assert(name_code("LINKS"@) == 8387767463406205);
    assert(name_code("MEET"@) == 8496015738605304);
    assert(name_code("MIGRATE-SLOT"@) == 8497730920839612);
    assert(name_code("MIGRATESLOT"@) == 8497730920839611);
    assert(name_code("MYID"@) == 8504578829756104);
    assert(name_code("NODES"@) == 8610236702854805);
    assert(name_code("REBALANCE"@) == 9045740101716609);
    assert(name_code("REPLICATE"@) == 9045758570195309);
    assert(name_code("RESET"@) == 9045746386670705);
    assert(name_code("RESHARD"@) == 9045751957561707);
    assert(name_code("SAVECONFIG"@) == 9153980080365410);
    assert(name_code("SETSLOT"@) == 9155721555540407);
    assert(name_code("SHARDS"@) == 9157008393941006);
    assert(name_code("SLOTS"@) == 9158729192763105);
    reveal_with_fuel(slots_from, 3);
    assert(Seq::<u16>::empty().push(u16_of(a[2])->0) =~= seq![u16_of(a[2])->0]);
}

/// Ranges of slots that a server is given or loses.
pub proof fn law_cluster_addslotsrange_shapes(a: Seq<Seq<u8>>, env: &ParseEnv)
    requires
        called(a, "CLUSTER"@),
        a.len() == 4,
        upper_word(a[1]) == "ADDSLOTSRANGE"@,
        u16_of(a[2]) is Some,
        u16_of(a[3]) is Some,
    ensures
        makes(
            a,
            env,
            CommandView::Cluster(
                ClusterSubcommandView::AddSlotsRange(seq![(u16_of(a[2])->0, u16_of(a[3])->0)]),
            ),
        ),
{
    reveal(verdict);
    lemma_called(a);
    assert(named_command_spec(
        upper_word(a[0]),
        unnamed(a),
        env,
    ) == cluster_spec(unnamed(a), env)) by {
        lemma_reach_server(upper_word(a[0]), unnamed(a), env);
        lemma_server_codes();
    }
    reveal(name_code);
    reveal_strlit("ADDSLOTS");
    reveal_strlit("ADDSLOTS-RANGE");
    reveal_strlit("ADDSLOTSRANGE");
    reveal_strlit("CHECK");
    reveal_strlit("COUNTKEYSINSLOT");
    reveal_strlit("DELSLOTS");
    reveal_strlit("DELSLOTS-RANGE");
    reveal_strlit("DELSLOTSRANGE");
    reveal_strlit("FAILOVER");
    reveal_strlit("FORGET");
    reveal_strlit("GETKEYSINSLOT");
    reveal_strlit("INFO");
    reveal_strlit("KEYSLOT");
    reveal_strlit("LINKS");
    reveal_strlit("MEET");
    reveal_strlit("MIGRATE-SLOT");
    reveal_strlit("MIGRATESLOT");
    reveal_strlit("MYID");
    reveal_strlit("NODES");
    reveal_strlit("REBALANCE");
    reveal_strlit("REPLICATE");
    reveal_strlit("RESET");
    reveal_strlit("RESHARD");
    reveal_strlit("SAVECONFIG");
    reveal_strlit("SETSLOT");
    reveal_strlit("SHARDS");
    reveal_strlit("SLOTS");
    assert(name_code("ADDSLOTS"@) == 7176171128942308);
    assert(name_code("ADDSLOTS-RANGE"@) == 7176171128609414);
    assert(name_code("ADDSLOTSRANGE"@) == 7176171128609413);
    assert(name_code("CHECK"@) == 7397764079699705);
    assert(name_code("COUNTKEYSINSLOT"@) == 7400789503572415);
    assert(name_code("DELSLOTS"@) == 7506454114004708);
    assert(name_code("DELSLOTS-RANGE"@) == 7506454113671814);
    assert(name_code("DELSLOTSRANGE"@) == 7506454113671813);
    assert(name_code("FAILOVER"@) == 7724626754082208);
    assert(name_code("FORGET"@) == 7730631306579906);
    assert(name_code("GETKEYSINSLOT"@) == 7836294245972413);
    assert(name_code("INFO"@) == 8060068169479804);
    assert(name_code("KEYSLOT"@) == 8276112253319607);
    assert(name_code("LINKS"@) == 8387767463406205);
    assert(name_code("MEET"@) == 8496015738605304);
    assert(name_code("MIGRATE-SLOT"@) == 8497730920839612);
    assert(name_code("MIGRATESLOT"@) == 8497730920839611);
    assert(name_code("MYID"@) == 8504578829756104);
    assert(name_code("NODES"@) == 8610236702854805);
    assert(name_code("REBALANCE"@) == 9045740101716609);
    assert(name_code("REPLICATE"@) == 9045758570195309);
    assert(name_code("RESET"@) == 9045746386670705);
    assert(name_code("RESHARD"@) == 9045751957561707);
    assert(name_code("SAVECONFIG"@) == 9153980080365410);
    assert(name_code("SETSLOT"@) == 9155721555540407);
    assert(name_code("SHARDS"@) == 9157008393941006);
    assert(name_code("SLOTS"@) == 9158729192763105);
    reveal_with_fuel(slot_ranges_from, 3);
    assert(Seq::<(u16, u16)>::empty().push((
        u16_of(a[2])->0,
        u16_of(a[3])->0,
    )) =~= seq![(u16_of(a[2])->0, u16_of(a[3])->0)]);
}

/// Ranges of slots that a server is given or loses.
pub proof fn law_cluster_delslotsrange_shapes(a: Seq<Seq<u8>>, env: &ParseEnv)
    requires
        called(a, "CLUSTER"@),
        a.len() == 4,
        upper_word(a[1]) == "DELSLOTSRANGE"@,
        u16_of(a[2]) is Some,
        u16_of(a[3]) is Some,
    ensures
        makes(
            a,
            env,
            CommandView::Cluster(
                ClusterSubcommandView::DelSlotsRange(seq![(u16_of(a[2])->0, u16_of(a[3])->0)]),
            ),
        ),
{
    reveal(verdict);
    lemma_called(a);
    assert(named_command_spec(
        upper_word(a[0]),
        unnamed(a),
        env,
    ) == cluster_spec(unnamed(a), env)) by {
        lemma_reach_server(upper_word(a[0]), unnamed(a), env);
        lemma_server_codes();
    }
    reveal(name_code);
    reveal_strlit("ADDSLOTS");
    reveal_strlit("ADDSLOTS-RANGE");
    reveal_strlit("ADDSLOTSRANGE");
    reveal_strlit("CHECK");
    reveal_strlit("COUNTKEYSINSLOT");
    reveal_strlit("DELSLOTS");
    reveal_strlit("DELSLOTS-RANGE");
    reveal_strlit("DELSLOTSRANGE");
    reveal_strlit("FAILOVER");
    reveal_strlit("FORGET");
    reveal_strlit("GETKEYSINSLOT");
    reveal_strlit("INFO");
    reveal_strlit("KEYSLOT");
    reveal_strlit("LINKS");
    reveal_strlit("MEET");
    reveal_strlit("MIGRATE-SLOT");
    reveal_strlit("MIGRATESLOT");
    reveal_strlit("MYID");
    reveal_strlit("NODES");
    reveal_strlit("REBALANCE");
    reveal_strlit("REPLICATE");
    reveal_strlit("RESET");
    reveal_strlit("RESHARD");
    reveal_strlit("SAVECONFIG");
    reveal_strlit("SETSLOT");
    reveal_strlit("SHARDS");
    reveal_strlit("SLOTS");
    assert(name_code("ADDSLOTS"@) == 7176171128942308);
    assert(name_code("ADDSLOTS-RANGE"@) == 7176171128609414);
    assert(name_code("ADDSLOTSRANGE"@) == 7176171128609413);
    assert(name_code("CHECK"@) == 7397764079699705);
    assert(name_code("COUNTKEYSINSLOT"@) == 7400789503572415);
    assert(name_code("DELSLOTS"@) == 7506454114004708);
    assert(name_code("DELSLOTS-RANGE"@) == 7506454113671814);
    assert(name_code("DELSLOTSRANGE"@) == 7506454113671813);
    assert(name_code("FAILOVER"@) == 7724626754082208);
    assert(name_code("FORGET"@) == 7730631306579906);
    assert(name_code("GETKEYSINSLOT"@) == 7836294245972413);
    assert(name_code("INFO"@) == 8060068169479804);
    assert(name_code("KEYSLOT"@) == 8276112253319607);
    assert(name_code("LINKS"@) == 8387767463406205);
    assert(name_code("MEET"@) == 8496015738605304);
    assert(name_code("MIGRATE-SLOT"@) == 8497730920839612);
    assert(name_code("MIGRATESLOT"@) == 8497730920839611);
    assert(name_code("MYID"@) == 8504578829756104);
    assert(name_code("NODES"@) == 8610236702854805);
    assert(name_code("REBALANCE"@) == 9045740101716609);
    assert(name_code("REPLICATE"@) == 9045758570195309);
    assert(name_code("RESET"@) == 9045746386670705);
    assert(name_code("RESHARD"@) == 9045751957561707);
    assert(name_code("SAVECONFIG"@) == 9153980080365410);
    assert(name_code("SETSLOT"@) == 9155721555540407);
    assert(name_code("SHARDS"@) == 9157008393941006);
    assert(name_code("SLOTS"@) == 9158729192763105);
    reveal_with_fuel(slot_ranges_from, 3);
    assert(Seq::<(u16, u16)>::empty().push((
        u16_of(a[2])->0,
        u16_of(a[3])->0,
    )) =~= seq![(u16_of(a[2])->0, u16_of(a[3])->0)]);
}

} // verus!
