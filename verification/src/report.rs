//! What a server says of its replication.
use vstd::prelude::*;
use vstd::utf8::*;

use crate::followers::{ids, ConnectedReplica};
use crate::numbers::{decimal_digits, push_decimal};
use crate::replication::{ReplicationHub, ReplicationRole, Role};
use crate::text::same_text;
use crate::wire::{bulk, count_line, write_number_line, write_resp_bulk, write_word};
use crate::writing::{append_number, append_signed, number_text, signed_text};

verus! {

broadcast use vstd::std_specs::hash::group_hash_axioms;

/// A replica in the reply to a question for the role.
pub open spec fn replica_entry(rep: ConnectedReplica) -> Seq<u8> {
    count_line(42, 3) + bulk(encode_utf8("127.0.0.1"@)) + bulk(
        decimal_digits(rep.listening_port as nat),
    ) + count_line(58, rep.ack_offset as nat)
}

/// Replicas in the reply to a question for the role, in an order.
pub open spec fn replica_entries(
    replicas: Map<u64, ConnectedReplica>,
    order: Seq<u64>,
) -> Seq<u8>
    decreases order.len(),
{
    if order.len() == 0 {
        Seq::empty()
    } else {
        replica_entries(replicas, order.drop_last()) + replica_entry(replicas[order.last()])
    }
}

/// The reply of a master to a question for the role.
pub open spec fn master_reply(
    offset: u64,
    replicas: Map<u64, ConnectedReplica>,
    order: Seq<u64>,
) -> Seq<u8> {
    count_line(42, 3) + bulk(encode_utf8("master"@)) + count_line(58, offset as nat) + count_line(
        42,
        replicas.dom().len(),
    ) + replica_entries(replicas, order)
}

/// The state of a link, in the reply to a question for the role.
pub open spec fn link_state(status: Seq<char>) -> Seq<char> {
    if status == "up"@ {
        "connected"@
    } else {
        "connect"@
    }
}

/// The reply of a server that follows another to a question for the role.
pub open spec fn slave_reply(
    host: Seq<char>,
    port: u16,
    status: Seq<char>,
    offset: u64,
) -> Seq<u8> {
    count_line(42, 5) + bulk(encode_utf8("slave"@)) + bulk(encode_utf8(host)) + count_line(
        58,
        port as nat,
    ) + bulk(encode_utf8(link_state(status))) + count_line(58, offset as nat)
}

/// A line of a report.
pub open spec fn line(name: Seq<char>, value: Seq<char>) -> Seq<char> {
    name + value + "\r\n"@
}

/// The report of a master.
pub open spec fn master_info(hub: ReplicationHub, role: Role) -> Seq<char>
    recommends
        role is Master,
{
    "# Replication\r\nrole:master\r\n"@ + line(
        "connected_slaves:"@,
        number_text(hub.replicas@.dom().len()),
    ) + line("master_replid:"@, role->replid) + line("master_replid2:"@, role->replid2) + line(
        "master_repl_offset:"@,
        number_text(hub.master_repl_offset as nat),
    ) + line("second_repl_offset:"@, signed_text(role->second_offset as int))
        + "repl_backlog_active:1\r\n"@ + line(
        "repl_backlog_size:"@,
        number_text(hub.backlog.max_size as nat),
    ) + line(
        "repl_backlog_first_byte_offset:"@,
        number_text(hub.backlog.first_byte_offset as nat),
    ) + line("repl_backlog_histlen:"@, number_text(hub.backlog@.len()))
}

/// The report of a server that follows another.
pub open spec fn slave_info(hub: ReplicationHub, role: Role) -> Seq<char>
    recommends
        role is Slave,
{
    "# Replication\r\nrole:slave\r\n"@ + line("master_host:"@, role->master_host) + line(
        "master_port:"@,
        number_text(role->master_port as nat),
    ) + line("master_link_status:"@, role->link_status) + "master_last_io_seconds_ago:0\r\n"@
        + line(
        "master_sync_in_progress:"@,
        number_text(
            if role->sync_in_progress {
                1
            } else {
                0
            },
        ),
    ) + line("slave_repl_offset:"@, number_text(role->master_repl_offset as nat))
        + "slave_priority:100\r\nslave_read_only:1\r\nconnected_slaves:0\r\n"@ + line(
        "master_replid:"@,
        if role->master_replid.len() > 0 {
            role->master_replid
        } else {
            hub.master_replid@
        },
    ) + line("master_repl_offset:"@, number_text(role->master_repl_offset as nat))
}

/// Appends a line of a report whose value is text.
fn append_line(out: &mut String, name: &str, value: &str)
    ensures
        final(out)@ == old(out)@ + line(name@, value@),
{
    out.append(name);
    out.append(value);
    out.append("\r\n");
    assert(out@ =~= old(out)@ + line(name@, value@));
}

/// Appends a line of a report whose value is a number.
fn append_number_line(out: &mut String, name: &str, value: u64)
    ensures
        final(out)@ == old(out)@ + line(name@, number_text(value as nat)),
{
    out.append(name);
    append_number(out, value);
    out.append("\r\n");
    assert(out@ =~= old(out)@ + line(name@, number_text(value as nat)));
}

/// Appends a line of a report whose value is a number that may be negative.
fn append_signed_line(out: &mut String, name: &str, value: i64)
    ensures
        final(out)@ == old(out)@ + line(name@, signed_text(value as int)),
{
    out.append(name);
    append_signed(out, value);
    out.append("\r\n");
    assert(out@ =~= old(out)@ + line(name@, signed_text(value as int)));
}

impl ReplicationHub {
    /// The reply to a question for the role. The replicas of a master stand in it each once, in no
    /// particular order.
    pub fn format_role_resp(&self) -> (r: Vec<u8>)
        ensures
            match self.role@ {
                Role::Master { .. } => exists|order: Seq<u64>|
                    order.no_duplicates() && order.to_set() == self.replicas@.dom() && r@
                        == #[trigger] master_reply(
                        self.master_repl_offset,
                        self.replicas@,
                        order,
                    ),
                Role::Slave { master_host, master_port, link_status, master_repl_offset, .. } => r@
                    == slave_reply(master_host, master_port, link_status, master_repl_offset),
            },
    {
        match &self.role {
            ReplicationRole::Master { .. } => {
                let order: Vec<u64> = ids(&self.replicas);
                self.master_role_resp(&order)
            },
            ReplicationRole::Slave {
                master_host,
                master_port,
                link_status,
                master_repl_offset,
                ..
            } => {
                let mut out: Vec<u8> = Vec::new();
                write_number_line(&mut out, 42, 5);
                write_word(&mut out, "slave");
                write_word(&mut out, master_host.as_str());
                write_number_line(&mut out, 58, *master_port as u64);
                if same_text(link_status.as_str(), "up") {
                    write_word(&mut out, "connected");
                } else {
                    write_word(&mut out, "connect");
                }
                write_number_line(&mut out, 58, *master_repl_offset);
                assert(out@ =~= slave_reply(
                    master_host@,
                    *master_port,
                    link_status@,
                    *master_repl_offset,
                ));
                out
            },
        }
    }

    /// The reply of a master to a question for the role, with its replicas in an order.
    pub fn master_role_resp(&self, order: &Vec<u64>) -> (r: Vec<u8>)
        requires
            order@.no_duplicates(),
            order@.to_set() == self.replicas@.dom(),
        ensures
            r@ == master_reply(self.master_repl_offset, self.replicas@, order@),
    {
        let mut out: Vec<u8> = Vec::new();
        write_number_line(&mut out, 42, 3);
        write_word(&mut out, "master");
        write_number_line(&mut out, 58, self.master_repl_offset);
        write_number_line(&mut out, 42, self.replicas.len() as u64);
        let ghost head = out@;
        assert(head =~= count_line(42, 3) + bulk(encode_utf8("master"@)) + count_line(
            58,
            self.master_repl_offset as nat,
        ) + count_line(42, self.replicas@.dom().len()));
        let mut i: usize = 0;
        assert(out@ =~= head + replica_entries(self.replicas@, order@.take(0)));
        while i < order.len()
            invariant
                i <= order.len(),
                order@.to_set() == self.replicas@.dom(),
                out@ == head + replica_entries(self.replicas@, order@.take(i as int)),
            decreases order.len() - i,
        {
            let ghost before = out@;
            let ghost id = order@[i as int];
            assert(order@.to_set().contains(id));
            match self.replicas.get(&order[i]) {
                Some(rep) => {
                    write_number_line(&mut out, 42, 3);
                    write_word(&mut out, "127.0.0.1");
                    let mut digits: Vec<u8> = Vec::new();
                    push_decimal(&mut digits, rep.listening_port);
                    assert(digits@ =~= decimal_digits(rep.listening_port as nat));
                    write_resp_bulk(&mut out, digits.as_slice());
                    write_number_line(&mut out, 58, rep.ack_offset);
                    assert(out@ =~= before + replica_entry(self.replicas@[id]));
                },
                None => {},
            }
            proof {
                assert(order@.take(i + 1).drop_last() == order@.take(i as int));
                assert(out@ =~= head + replica_entries(self.replicas@, order@.take(i + 1)));
            }
            i += 1;
        }
        assert(order@.take(i as int) == order@);
        assert(out@ =~= master_reply(self.master_repl_offset, self.replicas@, order@));
        out
    }

    /// The report on replication.
    pub fn format_info_replication(&self) -> (r: String)
        ensures
            r@ == match self.role@ {
                Role::Master { .. } => master_info(*self, self.role@),
                Role::Slave { .. } => slave_info(*self, self.role@),
            },
    {
        match &self.role {
            ReplicationRole::Master { replid, replid2, second_offset } => {
                let mut out: String = "# Replication\r\nrole:master\r\n".to_owned();
                append_number_line(&mut out, "connected_slaves:", self.replicas.len() as u64);
                append_line(&mut out, "master_replid:", replid.as_str());
                append_line(&mut out, "master_replid2:", replid2.as_str());
                append_number_line(&mut out, "master_repl_offset:", self.master_repl_offset);
                append_signed_line(&mut out, "second_repl_offset:", *second_offset);
                out.append("repl_backlog_active:1\r\n");
                append_number_line(&mut out, "repl_backlog_size:", self.backlog.max_size as u64);
                append_number_line(
                    &mut out,
                    "repl_backlog_first_byte_offset:",
                    self.backlog.first_byte_offset,
                );
                append_number_line(&mut out, "repl_backlog_histlen:", self.backlog.len() as u64);
                out
            },
            ReplicationRole::Slave {
                master_host,
                master_port,
                link_status,
                master_repl_offset,
                master_replid,
                sync_in_progress,
            } => {
                let mut out: String = "# Replication\r\nrole:slave\r\n".to_owned();
                append_line(&mut out, "master_host:", master_host.as_str());
                append_number_line(&mut out, "master_port:", *master_port as u64);
                append_line(&mut out, "master_link_status:", link_status.as_str());
                out.append("master_last_io_seconds_ago:0\r\n");
                let busy: u64 = if *sync_in_progress {
                    1
                } else {
                    0
                };
                append_number_line(&mut out, "master_sync_in_progress:", busy);
                append_number_line(&mut out, "slave_repl_offset:", *master_repl_offset);
                out.append("slave_priority:100\r\nslave_read_only:1\r\nconnected_slaves:0\r\n");
                if !master_replid.as_str().is_empty() {
                    append_line(&mut out, "master_replid:", master_replid.as_str());
                } else {
                    append_line(&mut out, "master_replid:", self.master_replid.as_str());
                }
                append_number_line(&mut out, "master_repl_offset:", *master_repl_offset);
                out
            },
        }
    }
}

/// Whether a report has a line with a name and a value.
pub open spec fn has_line(text: Seq<char>, name: Seq<char>, value: Seq<char>) -> bool {
    exists|before: Seq<char>, after: Seq<char>|
        text == #[trigger] (before + (name + value + "\r\n"@) + after)
}

/// A line stands where it stands.
proof fn lemma_has_line(
    text: Seq<char>,
    before: Seq<char>,
    name: Seq<char>,
    value: Seq<char>,
    after: Seq<char>,
)
    requires
        text == before + (name + value + "\r\n"@) + after,
    ensures
        has_line(text, name, value),
{
}

/// The report of a master tells its role, the number of its replicas, the identities and offsets of
/// its two streams, and the size, the first offset and the length of what it keeps of its stream.
pub proof fn law_master_report(hub: ReplicationHub, role: Role)
    requires
        role is Master,
    ensures
        ({
            let t = master_info(hub, role);
            &&& has_line(t, "connected_slaves:"@, number_text(hub.replicas@.dom().len()))
            &&& has_line(t, "master_replid:"@, role->replid)
            &&& has_line(t, "master_replid2:"@, role->replid2)
            &&& has_line(t, "master_repl_offset:"@, number_text(hub.master_repl_offset as nat))
            &&& has_line(t, "second_repl_offset:"@, signed_text(role->second_offset as int))
            &&& has_line(t, "repl_backlog_size:"@, number_text(hub.backlog.max_size as nat))
            &&& has_line(
                t,
                "repl_backlog_first_byte_offset:"@,
                number_text(hub.backlog.first_byte_offset as nat),
            )
            &&& has_line(t, "repl_backlog_histlen:"@, number_text(hub.backlog@.len()))
            &&& t.take("# Replication\r\nrole:master\r\n"@.len() as int)
                == "# Replication\r\nrole:master\r\n"@
        }),
{
    let t = master_info(hub, role);
    let h = "# Replication\r\nrole:master\r\n"@;
    let l1 = line("connected_slaves:"@, number_text(hub.replicas@.dom().len()));
    let l2 = line("master_replid:"@, role->replid);
    let l3 = line("master_replid2:"@, role->replid2);
    let l4 = line("master_repl_offset:"@, number_text(hub.master_repl_offset as nat));
    let l5 = line("second_repl_offset:"@, signed_text(role->second_offset as int));
    let m = "repl_backlog_active:1\r\n"@;
    let l6 = line("repl_backlog_size:"@, number_text(hub.backlog.max_size as nat));
    let l7 = line(
        "repl_backlog_first_byte_offset:"@,
        number_text(hub.backlog.first_byte_offset as nat),
    );
    let l8 = line("repl_backlog_histlen:"@, number_text(hub.backlog@.len()));
    let none = Seq::<char>::empty();
    assert(t == h + l1 + l2 + l3 + l4 + l5 + m + l6 + l7 + l8);
    assert(t =~= h + l1 + (l2 + l3 + l4 + l5 + m + l6 + l7 + l8));
    assert(t =~= (h + l1) + l2 + (l3 + l4 + l5 + m + l6 + l7 + l8));
    assert(t =~= (h + l1 + l2) + l3 + (l4 + l5 + m + l6 + l7 + l8));
    assert(t =~= (h + l1 + l2 + l3) + l4 + (l5 + m + l6 + l7 + l8));
    assert(t =~= (h + l1 + l2 + l3 + l4) + l5 + (m + l6 + l7 + l8));
    assert(t =~= (h + l1 + l2 + l3 + l4 + l5 + m) + l6 + (l7 + l8));
    assert(t =~= (h + l1 + l2 + l3 + l4 + l5 + m + l6) + l7 + l8);
    assert(t =~= (h + l1 + l2 + l3 + l4 + l5 + m + l6 + l7) + l8 + none);
    assert(t.take(h.len() as int) =~= h);
}

/// The report of a server that follows another tells its role, whom it follows and the state of the
/// link, whether a transfer goes on, and the identity and the offset of the stream, its own identity
/// where it has no other.
pub proof fn law_slave_report(hub: ReplicationHub, role: Role)
    requires
        role is Slave,
    ensures
        ({
            let t = slave_info(hub, role);
            &&& has_line(t, "master_host:"@, role->master_host)
            &&& has_line(t, "master_port:"@, number_text(role->master_port as nat))
            &&& has_line(t, "master_link_status:"@, role->link_status)
            &&& has_line(
                t,
                "master_sync_in_progress:"@,
                number_text(
                    if role->sync_in_progress {
                        1
                    } else {
                        0
                    },
                ),
            )
            &&& has_line(t, "slave_repl_offset:"@, number_text(role->master_repl_offset as nat))
            &&& has_line(
                t,
                "master_replid:"@,
                if role->master_replid.len() > 0 {
                    role->master_replid
                } else {
                    hub.master_replid@
                },
            )
            &&& has_line(t, "master_repl_offset:"@, number_text(role->master_repl_offset as nat))
            &&& t.take("# Replication\r\nrole:slave\r\n"@.len() as int)
                == "# Replication\r\nrole:slave\r\n"@
        }),
{
    let t = slave_info(hub, role);
    let h = "# Replication\r\nrole:slave\r\n"@;
    let l1 = line("master_host:"@, role->master_host);
    let l2 = line("master_port:"@, number_text(role->master_port as nat));
    let l3 = line("master_link_status:"@, role->link_status);
    let m = "master_last_io_seconds_ago:0\r\n"@;
    let busy: nat = if role->sync_in_progress {
        1
    } else {
        0
    };
    let l4 = line("master_sync_in_progress:"@, number_text(busy));
    let l5 = line("slave_repl_offset:"@, number_text(role->master_repl_offset as nat));
    let k = "slave_priority:100\r\nslave_read_only:1\r\nconnected_slaves:0\r\n"@;
    let id = if role->master_replid.len() > 0 {
        role->master_replid
    } else {
        hub.master_replid@
    };
    let l6 = line("master_replid:"@, id);
    let l7 = line("master_repl_offset:"@, number_text(role->master_repl_offset as nat));
    let none = Seq::<char>::empty();
    assert(t == h + l1 + l2 + l3 + m + l4 + l5 + k + l6 + l7);
    assert(t =~= h + l1 + (l2 + l3 + m + l4 + l5 + k + l6 + l7));
    assert(t =~= (h + l1) + l2 + (l3 + m + l4 + l5 + k + l6 + l7));
    assert(t =~= (h + l1 + l2) + l3 + (m + l4 + l5 + k + l6 + l7));
    assert(t =~= (h + l1 + l2 + l3 + m) + l4 + (l5 + k + l6 + l7));
    assert(t =~= (h + l1 + l2 + l3 + m + l4) + l5 + (k + l6 + l7));
    assert(t =~= (h + l1 + l2 + l3 + m + l4 + l5 + k) + l6 + l7);
    assert(t =~= (h + l1 + l2 + l3 + m + l4 + l5 + k + l6) + l7 + none);
    assert(t.take(h.len() as int) =~= h);
}

/// The answers to a question for the role. A master's is an array of `master`, its offset and an array
/// of its replicas, each of those an array of an address, the port where it listens and the offset
/// that it has confirmed. That of a server that follows another is an array of `slave`, the host and
/// the port of its master, the state of the link and its offset.
pub proof fn law_role_replies(
    offset: u64,
    replicas: Map<u64, ConnectedReplica>,
    order: Seq<u64>,
    id: u64,
    host: Seq<char>,
    port: u16,
    status: Seq<char>,
)
    ensures
        slave_reply(host, port, status, offset) == seq![42u8, 53u8, 13u8, 10u8] + bulk(
            encode_utf8("slave"@),
        ) + bulk(encode_utf8(host)) + (seq![58u8] + decimal_digits(port as nat) + seq![13u8, 10u8])
            + bulk(
            encode_utf8(
                if status == "up"@ {
                    "connected"@
                } else {
                    "connect"@
                },
            ),
        ) + (seq![58u8] + decimal_digits(offset as nat) + seq![13u8, 10u8]),
        master_reply(offset, replicas, Seq::empty()) == seq![42u8, 51u8, 13u8, 10u8] + bulk(
            encode_utf8("master"@),
        ) + (seq![58u8] + decimal_digits(offset as nat) + seq![13u8, 10u8]) + (seq![42u8]
            + decimal_digits(replicas.dom().len()) + seq![13u8, 10u8]),
        master_reply(offset, replicas, order.push(id)) == master_reply(offset, replicas, order) + (
        seq![42u8, 51u8, 13u8, 10u8] + bulk(encode_utf8("127.0.0.1"@)) + bulk(
            decimal_digits(replicas[id].listening_port as nat),
        ) + (seq![58u8] + decimal_digits(replicas[id].ack_offset as nat) + seq![13u8, 10u8])),
{
    assert(count_line(42, 5) =~= seq![42u8, 53u8, 13u8, 10u8]);
    assert(count_line(42, 3) =~= seq![42u8, 51u8, 13u8, 10u8]);
    assert(slave_reply(host, port, status, offset) =~= seq![42u8, 53u8, 13u8, 10u8] + bulk(
        encode_utf8("slave"@),
    ) + bulk(encode_utf8(host)) + (seq![58u8] + decimal_digits(port as nat) + seq![13u8, 10u8])
        + bulk(
        encode_utf8(
            if status == "up"@ {
                "connected"@
            } else {
                "connect"@
            },
        ),
    ) + (seq![58u8] + decimal_digits(offset as nat) + seq![13u8, 10u8]));
    assert(master_reply(offset, replicas, Seq::empty()) =~= seq![42u8, 51u8, 13u8, 10u8] + bulk(
        encode_utf8("master"@),
    ) + (seq![58u8] + decimal_digits(offset as nat) + seq![13u8, 10u8]) + (seq![42u8]
        + decimal_digits(replicas.dom().len()) + seq![13u8, 10u8]));
    assert(order.push(id).drop_last() =~= order);
    assert(master_reply(offset, replicas, order.push(id)) =~= master_reply(offset, replicas, order)
        + (seq![42u8, 51u8, 13u8, 10u8] + bulk(encode_utf8("127.0.0.1"@)) + bulk(
        decimal_digits(replicas[id].listening_port as nat),
    ) + (seq![58u8] + decimal_digits(replicas[id].ack_offset as nat) + seq![13u8, 10u8])));
}

} // verus!
