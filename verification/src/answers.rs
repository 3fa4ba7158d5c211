//! What is made of the answers of other shards, and small decisions and texts of the router.
use bytes::Bytes;
use vstd::prelude::*;
use vstd::utf8::*;

use crate::merging::{comes_before, precedes};
use crate::numbers::{decimal_digits, is_digit, law_digits_read_back, read_usize, usize_of};
use crate::octets::content;
use crate::replication::le_bytes;
use crate::resp::{crlf_from, find_crlf, lemma_crlf_from, lemma_crlf_is, line_ends};
use crate::text::{
    is_utf8, join2, lossy, lossy_text, lower_text, same_bytes, same_text, to_lower, to_upper,
    upper_text,
};
use crate::writing::{append_number, number_text};

verus! {

/// The answer of another shard: the question could not be sent, the answer got lost, or it came.
pub enum Reply<T> {
    Unsent,
    Lost,
    Came(T),
}

impl<T> Reply<T> {
    /// The answer, or another value where none came.
    pub fn or(self, other: T) -> (r: T)
        ensures
            r == match self {
                Reply::Came(x) => x,
                _ => other,
            },
    {
        match self {
            Reply::Came(x) => x,
            _ => other,
        }
    }
}

/// The sum that another shard came to, or why there is none.
pub fn incr_answer(reply: Reply<Result<i64, String>>) -> (r: Result<i64, String>)
    ensures
        match reply {
            Reply::Came(x) => r == x,
            Reply::Lost => r matches Err(e) && e@ == "shard disconnected"@,
            Reply::Unsent => r matches Err(e) && e@ == "failed to route to shard"@,
        },
{
    match reply {
        Reply::Came(x) => x,
        Reply::Lost => Err("shard disconnected".to_owned()),
        Reply::Unsent => Err("failed to route to shard".to_owned()),
    }
}

/// The reply to a command that could not be handed to another shard.
pub fn routing_error() -> (r: Vec<u8>)
    ensures
        r@ == encode_utf8("-ERR internal shard routing error\r\n"@),
{
    let mut out: Vec<u8> = Vec::new();
    out.extend_from_slice("-ERR internal shard routing error\r\n".as_bytes());
    assert(out@ =~= encode_utf8("-ERR internal shard routing error\r\n"@));
    out
}

/// The number in a reply that is one: what stands behind the colon up to the end of the line.
pub open spec fn integer_in(reply: Seq<u8>) -> Option<usize> {
    if reply.len() == 0 || reply[0] != 58 || !valid_utf8(reply) {
        None
    } else {
        match crlf_from(reply, 0) {
            Some(c) => usize_of(reply.subrange(1, c)),
            None => usize_of(reply.skip(1)),
        }
    }
}

/// The number in a reply that is one.
pub fn read_integer_reply(reply: &[u8]) -> (r: Option<usize>)
    ensures
        r == integer_in(reply@),
{
    if reply.len() == 0 || reply[0] != 58 || !is_utf8(reply) {
        return None;
    }
    proof {
        lemma_crlf_from(reply@, 0);
    }
    match find_crlf(reply) {
        Some(c) => {
            assert(c >= 1);
            assert(c + 2 <= reply.len());
            let digits: &[u8] = vstd::slice::slice_subrange(reply, 1, c);
            assert(digits@ =~= reply@.subrange(1, c as int));
            read_usize(digits)
        },
        None => {
            let digits: &[u8] = vstd::slice::slice_subrange(reply, 1, reply.len());
            assert(digits@ =~= reply@.skip(1));
            read_usize(digits)
        },
    }
}

/// How many keys are still wanted of a slot, if any.
pub fn still_wanted(count: usize, have: usize) -> (r: Option<usize>)
    ensures
        r == if have >= count {
            None
        } else {
            Some((count - have) as usize)
        },
{
    if have >= count {
        None
    } else {
        Some(count - have)
    }
}

/// Whether a value meets a condition on it, by the name of the condition in either case: to be
/// equal, or not, itself or in its digest, or to come after or before.
pub open spec fn meets(
    op: Seq<char>,
    value: Seq<u8>,
    digest: Seq<char>,
    expected: Seq<u8>,
) -> bool {
    let name = upper_text(op);
    if name == "IFEQ"@ {
        value == expected
    } else if name == "IFNE"@ {
        value != expected
    } else if name == "IFDEQ"@ {
        digest == lossy_text(expected)
    } else if name == "IFDNE"@ {
        digest != lossy_text(expected)
    } else if name == "IFGT"@ {
        precedes(expected, value)
    } else if name == "IFLT"@ {
        precedes(value, expected)
    } else {
        false
    }
}

/// Whether a value meets a condition on it.
pub fn condition_met(op: &str, value: &Bytes, digest: &str, expected: &Bytes) -> (r: bool)
    ensures
        r == meets(op@, content(*value), digest@, content(*expected)),
{
    let name: String = to_upper(op);
    let name: &str = name.as_str();
    if same_text(name, "IFEQ") {
        same_bytes(value.as_ref(), expected.as_ref())
    } else if same_text(name, "IFNE") {
        !same_bytes(value.as_ref(), expected.as_ref())
    } else if same_text(name, "IFDEQ") {
        same_text(digest, lossy(expected).as_str())
    } else if same_text(name, "IFDNE") {
        !same_text(digest, lossy(expected).as_str())
    } else if same_text(name, "IFGT") {
        comes_before(expected.as_ref(), value.as_ref())
    } else if same_text(name, "IFLT") {
        comes_before(value.as_ref(), expected.as_ref())
    } else {
        false
    }
}

/// Whether a key is deleted on a condition: without one, if it is there; else if its value is there
/// and meets it.
pub fn delex_decision(
    exists_here: bool,
    value: Option<&Bytes>,
    digest: &str,
    condition: Option<&(String, Bytes)>,
) -> (r: bool)
    ensures
        r == match condition {
            None => exists_here,
            Some(c) => match value {
                Some(v) => meets(c.0@, content(*v), digest@, content(c.1)),
                None => false,
            },
        },
{
    match condition {
        None => exists_here,
        Some(c) => match value {
            Some(v) => condition_met(c.0.as_str(), v, digest, &c.1),
            None => false,
        },
    }
}

/// Why an index is not created, if it is there.
pub fn check_new_index(name: &str, is_there: bool) -> (r: Result<(), String>)
    ensures
        match r {
            Ok(_) => !is_there,
            Err(e) => is_there && e@ == "Index already exists: "@ + name@,
        },
{
    if is_there {
        Err(join2("Index already exists: ", name))
    } else {
        Ok(())
    }
}

/// Whether any shard dropped an index, or else that there is none.
pub fn dropped_index(name: &str, dropped: &Vec<bool>) -> (r: Result<(), String>)
    ensures
        match r {
            Ok(_) => dropped@.contains(true),
            Err(e) => !dropped@.contains(true) && e@ == "Unknown Index name: "@ + name@,
        },
{
    let mut i: usize = 0;
    while i < dropped.len()
        invariant
            i <= dropped.len(),
            forall|k: int| 0 <= k < i ==> !#[trigger] dropped@[k],
        decreases dropped.len() - i,
    {
        if dropped[i] {
            assert(dropped@[i as int]);
            return Ok(());
        }
        i += 1;
    }
    Err(join2("Unknown Index name: ", name))
}

/// Chunks, one behind the other.
pub open spec fn joined(chunks: Seq<Vec<u8>>) -> Seq<u8>
    decreases chunks.len(),
{
    if chunks.len() == 0 {
        Seq::empty()
    } else {
        joined(chunks.drop_last()) + chunks.last()@
    }
}

/// What opens a dump: its magic word with the version, and the choice of the first database.
pub open spec fn dump_head() -> Seq<u8> {
    encode_utf8("REDIS0011"@) + seq![0xfeu8, 0x00u8]
}

/// A dump but for its checksum.
pub open spec fn dump_body(chunks: Seq<Vec<u8>>) -> Seq<u8> {
    dump_head() + joined(chunks) + seq![0xffu8]
}

/// A dump but for its checksum: the chunks of the shards between its head and its end.
pub fn frame_dump(chunks: &Vec<Vec<u8>>) -> (r: Vec<u8>)
    ensures
        r@ == dump_body(chunks@),
{
    let mut out: Vec<u8> = Vec::new();
    out.extend_from_slice("REDIS0011".as_bytes());
    out.push(0xfe);
    out.push(0x00);
    assert(out@ =~= dump_head());
    let mut i: usize = 0;
    assert(out@ =~= dump_head() + joined(chunks@.take(0)));
    while i < chunks.len()
        invariant
            i <= chunks.len(),
            out@ == dump_head() + joined(chunks@.take(i as int)),
        decreases chunks.len() - i,
    {
        out.extend_from_slice(chunks[i].as_slice());
        proof {
            assert(chunks@.take(i + 1).drop_last() == chunks@.take(i as int));
            assert(out@ =~= dump_head() + joined(chunks@.take(i + 1)));
        }
        i += 1;
    }
    assert(chunks@.take(i as int) == chunks@);
    out.push(0xff);
    assert(out@ =~= dump_body(chunks@));
    out
}

/// Puts the checksum behind a dump, the low byte first.
pub fn seal_dump(body: Vec<u8>, checksum: u64) -> (r: Vec<u8>)
    ensures
        r@ == body@ + le_bytes(checksum as nat, 8),
{
    let mut out: Vec<u8> = body;
    let ghost before = out@;
    let mut rest: u64 = checksum;
    let mut n: usize = 0;
    assert(out@ + le_bytes(rest as nat, 8) =~= before + le_bytes(checksum as nat, 8));
    while n < 8
        invariant
            n <= 8,
            out@ + le_bytes(rest as nat, (8 - n) as nat) == before + le_bytes(checksum as nat, 8),
        decreases 8 - n,
    {
        let ghost had = out@;
        out.push((rest % 256) as u8);
        proof {
            let width = (8 - n) as nat;
            assert(le_bytes(rest as nat, width) == seq![(rest % 256) as u8] + le_bytes(
                rest as nat / 256,
                (width - 1) as nat,
            ));
            assert(had + (seq![(rest % 256) as u8] + le_bytes(
                rest as nat / 256,
                (width - 1) as nat,
            )) =~= out@ + le_bytes(rest as nat / 256, (width - 1) as nat));
        }
        rest = rest / 256;
        n += 1;
    }
    assert(out@ =~= before + le_bytes(checksum as nat, 8));
    out
}

/// What is known of a client that is connected.
pub struct ClientInfo {
    pub id: u64,
    pub addr: String,
    pub name: Option<String>,
    pub age_secs: u64,
    pub idle_secs: u64,
    pub blocked: bool,
    pub omem: u64,
    pub last_cmd: String,
}

/// The line of a client in a list of clients.
pub open spec fn client_line(c: ClientInfo, port: u16) -> Seq<char> {
    "id="@ + number_text(c.id as nat) + " addr="@ + c.addr@ + " laddr=127.0.0.1:"@ + number_text(
        port as nat,
    ) + " fd=8 name="@ + match c.name {
        Some(name) => name@,
        None => Seq::empty(),
    } + " age="@ + number_text(c.age_secs as nat) + " idle="@ + number_text(c.idle_secs as nat)
        + " flags="@ + if c.blocked {
        "b"@
    } else {
        "N"@
    } + " db=0 sub=0 psub=0 ssub=0 multi=-1 watch=0 qbuf=0 qbuf-free=20448 argv-mem=10 multi-mem=0 rbs=1024 rbp=0 obl=0 oll=0 omem="@
        + number_text(c.omem as nat)
        + " omem-shared=0 omem-unshared=0 tot-mem=22306 events=r cmd="@ + lower_text(c.last_cmd@)
        + " user=default redir=-1 resp=2 lib-name= lib-ver= io-thread=0 tot-net-in=0 tot-net-out=0 tot-cmds=0 read-events=0 avg-pipeline-len-sum=0 avg-pipeline-len-cnt=0\n"@
}

/// The lines of those clients that were asked for, or of all where none was named.
pub open spec fn client_lines(clients: Seq<ClientInfo>, port: u16, ids: Seq<u64>) -> Seq<char>
    decreases clients.len(),
{
    if clients.len() == 0 {
        Seq::empty()
    } else {
        let c = clients.last();
        client_lines(clients.drop_last(), port, ids) + if ids.len() == 0 || ids.contains(c.id) {
            client_line(c, port)
        } else {
            Seq::empty()
        }
    }
}

/// Whether a number is in a list.
fn has_id(ids: &[u64], id: u64) -> (r: bool)
    ensures
        r == ids@.contains(id),
{
    let mut i: usize = 0;
    while i < ids.len()
        invariant
            i <= ids.len(),
            forall|k: int| 0 <= k < i ==> ids@[k] != id,
        decreases ids.len() - i,
    {
        if ids[i] == id {
            assert(ids@[i as int] == id);
            return true;
        }
        i += 1;
    }
    false
}

/// The line of a client.
fn write_client(c: &ClientInfo, port: u16) -> (r: String)
    ensures
        r@ == client_line(*c, port),
{
    let mut out: String = "id=".to_owned();
    append_number(&mut out, c.id);
    out.append(" addr=");
    out.append(c.addr.as_str());
    out.append(" laddr=127.0.0.1:");
    append_number(&mut out, port as u64);
    out.append(" fd=8 name=");
    match &c.name {
        Some(name) => out.append(name.as_str()),
        None => {
            assert(out@ + Seq::<char>::empty() =~= out@);
        },
    }
    out.append(" age=");
    append_number(&mut out, c.age_secs);
    out.append(" idle=");
    append_number(&mut out, c.idle_secs);
    out.append(" flags=");
    if c.blocked {
        out.append("b");
    } else {
        out.append("N");
    }
    out.append(
        " db=0 sub=0 psub=0 ssub=0 multi=-1 watch=0 qbuf=0 qbuf-free=20448 argv-mem=10 multi-mem=0 rbs=1024 rbp=0 obl=0 oll=0 omem=",
    );
    append_number(&mut out, c.omem);
    out.append(" omem-shared=0 omem-unshared=0 tot-mem=22306 events=r cmd=");
    out.append(to_lower(c.last_cmd.as_str()).as_str());
    out.append(
        " user=default redir=-1 resp=2 lib-name= lib-ver= io-thread=0 tot-net-in=0 tot-net-out=0 tot-cmds=0 read-events=0 avg-pipeline-len-sum=0 avg-pipeline-len-cnt=0\n",
    );
    out
}

/// The lines of those clients that were asked for, or of all where none was named.
pub fn client_list(clients: &Vec<ClientInfo>, port: u16, filter_ids: &[u64]) -> (r: String)
    ensures
        r@ == client_lines(clients@, port, filter_ids@),
{
    let mut out: String = String::new();
    let mut i: usize = 0;
    assert(out@ =~= client_lines(clients@.take(0), port, filter_ids@));
    while i < clients.len()
        invariant
            i <= clients.len(),
            out@ == client_lines(clients@.take(i as int), port, filter_ids@),
        decreases clients.len() - i,
    {
        proof {
            assert(clients@.take(i + 1).drop_last() == clients@.take(i as int));
        }
        let c: &ClientInfo = &clients[i];
        let ghost before = out@;
        if filter_ids.len() == 0 || has_id(filter_ids, c.id) {
            out.append(write_client(c, port).as_str());
        }
        assert(out@ =~= client_lines(clients@.take(i + 1), port, filter_ids@));
        i += 1;
    }
    assert(clients@.take(i as int) == clients@);
    out
}

/// A number in a reply is the one that was written there; a reply of another kind holds none.
pub proof fn law_integer_replies(n: nat, rest: Seq<u8>)
    requires
        n <= usize::MAX,
        valid_utf8(seq![58u8] + decimal_digits(n) + seq![13u8, 10u8] + rest),
    ensures
        integer_in(seq![58u8] + decimal_digits(n) + seq![13u8, 10u8] + rest) == Some(n as usize),
        rest.len() > 0 && rest[0] != 58 ==> integer_in(rest) is None,
        integer_in(Seq::empty()) is None,
{
    let d = decimal_digits(n);
    let b = seq![58u8] + d + seq![13u8, 10u8] + rest;
    law_digits_read_back(n);
    let c = 1 + d.len() as int;
    assert(b[0] == 58);
    assert(b[c] == 13 && b[c + 1] == 10);
    assert forall|q: int| 0 <= q < c implies !line_ends(b, q) by {
        if q > 0 {
            assert(b[q] == d[q - 1]);
            assert(is_digit(d[q - 1]));
        }
    }
    lemma_crlf_is(b, 0, c);
    assert(b.subrange(1, c) =~= d);
    assert(is_digit(d[0]));
}

/// A dump begins with its magic word and the choice of the first database, ends with its mark, and
/// holds the chunks of the shards between them, each behind the one before.
pub proof fn law_dumps(chunks: Seq<Vec<u8>>, more: Vec<u8>)
    ensures
        dump_body(Seq::empty()) == encode_utf8("REDIS0011"@) + seq![254u8, 0u8, 255u8],
        dump_body(chunks.push(more)) == dump_body(chunks).drop_last() + more@ + seq![255u8],
        dump_body(chunks).last() == 255,
{
    assert(chunks.push(more).drop_last() =~= chunks);
    assert(dump_body(Seq::empty()) =~= encode_utf8("REDIS0011"@) + seq![254u8, 0u8, 255u8]);
    assert(dump_body(chunks).drop_last() =~= dump_head() + joined(chunks));
    assert(dump_body(chunks.push(more)) =~= dump_body(chunks).drop_last() + more@ + seq![255u8]);
}

/// A list of clients has the line of every client that is asked for, behind those before it, and of no
/// other; where nobody is named, all are asked for.
pub proof fn law_clients_that_are_listed(
    clients: Seq<ClientInfo>,
    c: ClientInfo,
    port: u16,
    ids: Seq<u64>,
)
    ensures
        client_lines(Seq::empty(), port, ids) == Seq::<char>::empty(),
        ids.len() == 0 || ids.contains(c.id) ==> client_lines(clients.push(c), port, ids)
            == client_lines(clients, port, ids) + client_line(c, port),
        ids.len() > 0 && !ids.contains(c.id) ==> client_lines(clients.push(c), port, ids)
            == client_lines(clients, port, ids),
{
    assert(clients.push(c).drop_last() =~= clients);
    assert(client_lines(clients, port, ids) + Seq::<char>::empty() =~= client_lines(
        clients,
        port,
        ids,
    ));
}

/// What the conditions on a value ask: that it is another value or is not, that its digest is a given
/// one or is not, or that it comes behind another value or before it.
pub proof fn law_conditions(
    value: Seq<u8>,
    digest: Seq<char>,
    expected: Seq<u8>,
)
    ensures
        meets("IFEQ"@, value, digest, expected) <==> value == expected,
        meets("IFNE"@, value, digest, expected) <==> value != expected,
        meets("IFDEQ"@, value, digest, expected) <==> digest == lossy_text(expected),
        meets("IFDNE"@, value, digest, expected) <==> digest != lossy_text(expected),
        meets("IFGT"@, value, digest, expected) <==> precedes(expected, value),
        meets("IFLT"@, value, digest, expected) <==> precedes(value, expected),
{
    reveal_strlit("IFEQ");
    reveal_strlit("IFNE");
    reveal_strlit("IFDEQ");
    reveal_strlit("IFDNE");
    reveal_strlit("IFGT");
    reveal_strlit("IFLT");
    assert("IFEQ"@.len() == 4 && "IFNE"@.len() == 4 && "IFGT"@.len() == 4 && "IFLT"@.len() == 4);
    assert("IFDEQ"@.len() == 5 && "IFDNE"@.len() == 5);
    assert("IFEQ"@[2] == 'E' && "IFNE"@[2] == 'N' && "IFGT"@[2] == 'G' && "IFLT"@[2] == 'L');
    assert("IFDEQ"@[3] == 'E' && "IFDNE"@[3] == 'N');
    assert(upper_text("IFEQ"@) =~= "IFEQ"@);
    assert(upper_text("IFNE"@) =~= "IFNE"@);
    assert(upper_text("IFDEQ"@) =~= "IFDEQ"@);
    assert(upper_text("IFDNE"@) =~= "IFDNE"@);
    assert(upper_text("IFGT"@) =~= "IFGT"@);
    assert(upper_text("IFLT"@) =~= "IFLT"@);
}

} // verus!
