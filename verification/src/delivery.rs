//! What a published message becomes: frames, and who gets which.
use bytes::Bytes;
use vstd::prelude::*;

use crate::glob::{glob, glob_match};
use crate::lists::{content_opt, contents};
use crate::octets::{bytes_from_vec, content};
use crate::pubsub::{lemma_take_one_more, Hub, PubSubHub};
use crate::roster::{clients_of, names_taken};
use crate::readings::ParseEnv;
use crate::resp::{scan_array, Scan};
use crate::wire::{
    array_of_bulks, bulk, bulks, count_line, lemma_scan_frame, write_count_line, write_resp_bulk,
};

verus! {

/// The mark that opens a frame: a push in the third version of the protocol, an array before.
pub open spec fn push_mark(is_resp3: bool) -> u8 {
    if is_resp3 {
        62
    } else {
        42
    }
}

/// The frame of a message for a channel.
pub open spec fn channel_frame(
    kind: Seq<u8>,
    channel: Seq<u8>,
    message: Seq<u8>,
    is_resp3: bool,
) -> Seq<u8> {
    count_line(push_mark(is_resp3), 3) + bulk(kind) + bulk(channel) + bulk(message)
}

/// The frame of a message for a channel that a pattern matches.
pub open spec fn pattern_frame(
    pattern: Seq<u8>,
    channel: Seq<u8>,
    message: Seq<u8>,
    is_resp3: bool,
) -> Seq<u8> {
    count_line(push_mark(is_resp3), 4) + bulk(pmessage_word()) + bulk(pattern) + bulk(channel)
        + bulk(message)
}

/// `message`
pub open spec fn message_word() -> Seq<u8> {
    seq![109u8, 101, 115, 115, 97, 103, 101]
}

/// `smessage`
pub open spec fn smessage_word() -> Seq<u8> {
    seq![115u8, 109, 101, 115, 115, 97, 103, 101]
}

/// `pmessage`
pub open spec fn pmessage_word() -> Seq<u8> {
    seq![112u8, 109, 101, 115, 115, 97, 103, 101]
}

/// The frame of a message for a channel.
pub fn build_pubsub_frame(kind: &[u8], channel: &[u8], message: &[u8], is_resp3: bool) -> (r: Bytes)
    ensures
        content(r) == channel_frame(kind@, channel@, message@, is_resp3),
{
    let mut buf: Vec<u8> = Vec::new();
    let mark: u8 = if is_resp3 {
        62
    } else {
        42
    };
    write_count_line(&mut buf, mark, 3);
    write_resp_bulk(&mut buf, kind);
    write_resp_bulk(&mut buf, channel);
    write_resp_bulk(&mut buf, message);
    assert(buf@ =~= channel_frame(kind@, channel@, message@, is_resp3));
    bytes_from_vec(buf)
}

/// The frame of a message for a channel that a pattern matches.
pub fn build_pubsub_pframe(
    pattern: &[u8],
    channel: &[u8],
    message: &[u8],
    is_resp3: bool,
) -> (r: Bytes)
    ensures
        content(r) == pattern_frame(pattern@, channel@, message@, is_resp3),
{
    let mut buf: Vec<u8> = Vec::new();
    let mark: u8 = if is_resp3 {
        62
    } else {
        42
    };
    write_count_line(&mut buf, mark, 4);
    let word: Vec<u8> = vec![112, 109, 101, 115, 115, 97, 103, 101];
    assert(word@ =~= pmessage_word());
    write_resp_bulk(&mut buf, word.as_slice());
    write_resp_bulk(&mut buf, pattern);
    write_resp_bulk(&mut buf, channel);
    write_resp_bulk(&mut buf, message);
    assert(buf@ =~= pattern_frame(pattern@, channel@, message@, is_resp3));
    bytes_from_vec(buf)
}

/// One frame for one client: for its subscription to the channel, or to a pattern that matches.
pub struct Delivery {
    pub client_id: u64,
    pub pattern: Option<Bytes>,
    pub frame: Bytes,
}

/// On whose behalf each frame is sent.
pub open spec fn routes(d: Seq<Delivery>) -> Seq<(u64, Option<Seq<u8>>)> {
    d.map_values(|x: Delivery| (x.client_id, content_opt(x.pattern)))
}

/// On whose behalf a message for a channel is sent: each subscriber of the channel, and each
/// subscriber of a pattern that matches it, once for each such pattern.
pub open spec fn due(hub: Hub, channel: Seq<u8>) -> Set<(u64, Option<Seq<u8>>)> {
    Set::new(
        |r: (u64, Option<Seq<u8>>)|
            match r.1 {
                None => hub.channels.contains((r.0, channel)),
                Some(p) => hub.patterns.contains((r.0, p)) && glob(p, channel),
            },
    )
}

/// On whose behalf a message for a shard channel is sent: each of its subscribers.
pub open spec fn shard_due(hub: Hub, channel: Seq<u8>) -> Set<(u64, Option<Seq<u8>>)> {
    Set::new(
        |r: (u64, Option<Seq<u8>>)| r.1 is None && hub.shard_channels.contains((r.0, channel)),
    )
}

/// The frame of a message, for a subscription to the channel or to a pattern.
pub open spec fn frame_for(
    kind: Seq<u8>,
    pattern: Option<Seq<u8>>,
    channel: Seq<u8>,
    message: Seq<u8>,
    is_resp3: bool,
) -> Seq<u8> {
    match pattern {
        None => channel_frame(kind, channel, message, is_resp3),
        Some(p) => pattern_frame(p, channel, message, is_resp3),
    }
}

/// Each frame is that of the message, in the protocol that its client speaks.
pub open spec fn framed(
    d: Seq<Delivery>,
    resp3: Set<u64>,
    kind: Seq<u8>,
    channel: Seq<u8>,
    message: Seq<u8>,
) -> bool {
    forall|i: int|
        0 <= i < d.len() ==> content((#[trigger] d[i]).frame) == frame_for(
            kind,
            content_opt(d[i].pattern),
            channel,
            message,
            resp3.contains(d[i].client_id),
        )
}

/// The routes to a list of clients.
pub open spec fn routes_to(clients: Seq<u64>, pattern: Option<Seq<u8>>) -> Seq<
    (u64, Option<Seq<u8>>),
> {
    clients.map_values(|c: u64| (c, pattern))
}

/// How many of the frames were taken.
pub open spec fn taken(outcomes: Seq<bool>) -> nat
    decreases outcomes.len(),
{
    if outcomes.len() == 0 {
        0
    } else {
        taken(outcomes.drop_last()) + if outcomes.last() {
            1nat
        } else {
            0nat
        }
    }
}

/// How many of the frames were taken, when each was offered once.
pub fn count_taken(outcomes: &Vec<bool>) -> (r: usize)
    ensures
        r == taken(outcomes@),
        r <= outcomes@.len(),
{
    let mut n: usize = 0;
    let mut i: usize = 0;
    assert(outcomes@.take(0).len() == 0);
    while i < outcomes.len()
        invariant
            i <= outcomes.len(),
            n <= i,
            n == taken(outcomes@.take(i as int)),
        decreases outcomes.len() - i,
    {
        proof {
            assert(outcomes@.take(i + 1).drop_last() == outcomes@.take(i as int));
        }
        if outcomes[i] {
            n += 1;
        }
        i += 1;
    }
    assert(outcomes@.take(i as int) == outcomes@);
    n
}

/// Adds one frame for each client of a list, in the protocol that it speaks.
fn address(
    d: &mut Vec<Delivery>,
    hub: &PubSubHub,
    clients: Vec<u64>,
    pattern: Option<&Bytes>,
    frame_resp2: &Bytes,
    frame_resp3: &Bytes,
    kind: Ghost<Seq<u8>>,
    channel: &[u8],
    message: &[u8],
)
    requires
        framed(old(d)@, hub@.resp3, kind@, channel@, message@),
        content(*frame_resp2) == frame_for(
            kind@,
            content_ref(pattern),
            channel@,
            message@,
            false,
        ),
        content(*frame_resp3) == frame_for(kind@, content_ref(pattern), channel@, message@, true),
    ensures
        framed(final(d)@, hub@.resp3, kind@, channel@, message@),
        routes(final(d)@) == routes(old(d)@) + routes_to(clients@, content_ref(pattern)),
{
    let mut i: usize = 0;
    assert(routes(d@) =~= routes(old(d)@) + routes_to(
        clients@.take(0),
        content_ref(pattern),
    ));
    while i < clients.len()
        invariant
            i <= clients.len(),
            framed(d@, hub@.resp3, kind@, channel@, message@),
            routes(d@) == routes(old(d)@) + routes_to(
                clients@.take(i as int),
                content_ref(pattern),
            ),
            content(*frame_resp2) == frame_for(
                kind@,
                content_ref(pattern),
                channel@,
                message@,
                false,
            ),
            content(*frame_resp3) == frame_for(
                kind@,
                content_ref(pattern),
                channel@,
                message@,
                true,
            ),
        decreases clients.len() - i,
    {
        let ghost before = d@;
        let client: u64 = clients[i];
        let frame = if hub.speaks_resp3(client) {
            frame_resp3.clone()
        } else {
            frame_resp2.clone()
        };
        let named = match pattern {
            Some(p) => Some(p.clone()),
            None => None,
        };
        d.push(Delivery { client_id: client, pattern: named, frame });
        proof {
            assert(routes(d@) =~= routes(before).push((client, content_ref(pattern))));
            assert(routes_to(clients@.take(i + 1), content_ref(pattern)) =~= routes_to(
                clients@.take(i as int),
                content_ref(pattern),
            ).push((client, content_ref(pattern))));
        }
        i += 1;
    }
    assert(clients@.take(i as int) == clients@);
}

/// The bytes of a name that may be there.
pub open spec fn content_ref(b: Option<&Bytes>) -> Option<Seq<u8>> {
    match b {
        Some(x) => Some(content(*x)),
        None => None,
    }
}

/// Which routes a list of clients makes.
proof fn lemma_routes_to(
    clients: Seq<u64>,
    pattern: Option<Seq<u8>>,
    r: (u64, Option<Seq<u8>>),
)
    ensures
        routes_to(clients, pattern).contains(r) <==> r.1 == pattern && clients.contains(r.0),
{
    let s = routes_to(clients, pattern);
    if s.contains(r) {
        let k = choose|k: int| 0 <= k < s.len() && s[k] == r;
        assert(clients[k] == r.0);
    }
    if r.1 == pattern && clients.contains(r.0) {
        let k = choose|k: int| 0 <= k < clients.len() && clients[k] == r.0;
        assert(s[k] == r);
    }
}

/// Routes behind routes: none is lost and, where none was there before, none occurs twice.
proof fn lemma_more_routes(
    d: Seq<(u64, Option<Seq<u8>>)>,
    clients: Seq<u64>,
    pattern: Option<Seq<u8>>,
)
    requires
        d.no_duplicates(),
        clients.no_duplicates(),
        forall|c: u64| !d.contains((c, pattern)),
    ensures
        (d + routes_to(clients, pattern)).no_duplicates(),
        forall|r: (u64, Option<Seq<u8>>)| #[trigger]
            (d + routes_to(clients, pattern)).contains(r) <==> d.contains(r) || (r.1 == pattern
                && clients.contains(r.0)),
{
    let s = routes_to(clients, pattern);
    assert forall|i: int, j: int| 0 <= i < s.len() && 0 <= j < s.len() && i != j implies s[i]
        != s[j] by {
        assert(clients[i] != clients[j]);
    }
    assert forall|i: int, j: int| 0 <= i < d.len() && 0 <= j < s.len() implies d[i] != s[j] by {
        assert(s[j].1 == pattern);
        assert(!d.contains((s[j].0, pattern)));
    }
    vstd::seq_lib::lemma_no_dup_in_concat(d, s);
    assert forall|r: (u64, Option<Seq<u8>>)| #[trigger]
        (d + s).contains(r) <==> d.contains(r) || (r.1 == pattern && clients.contains(r.0)) by {
        lemma_routes_to(clients, pattern, r);
        if (d + s).contains(r) {
            let k = choose|k: int| 0 <= k < (d + s).len() && (d + s)[k] == r;
            if k < d.len() {
                assert(d[k] == r);
            } else {
                assert(s[k - d.len()] == r);
            }
        }
        if d.contains(r) {
            let k = choose|k: int| 0 <= k < d.len() && d[k] == r;
            assert((d + s)[k] == r);
        }
        if s.contains(r) {
            let k = choose|k: int| 0 <= k < s.len() && s[k] == r;
            assert((d + s)[d.len() + k] == r);
        }
    }
}

impl PubSubHub {
    /// The frames that a message for a channel becomes, in no particular order.
    pub fn deliveries(&self, channel: &[u8], message: &[u8]) -> (r: Vec<Delivery>)
        requires
            self.wf(),
        ensures
            routes(r@).no_duplicates(),
            routes(r@).to_set() == due(self@, channel@),
            framed(r@, self@.resp3, message_word(), channel@, message@),
    {
        let mut d: Vec<Delivery> = Vec::new();
        let kind: Vec<u8> = vec![109, 101, 115, 115, 97, 103, 101];
        assert(kind@ =~= message_word());
        let direct: Vec<u64> = self.channel_clients(channel);
        let frame_resp2 = build_pubsub_frame(kind.as_slice(), channel, message, false);
        let frame_resp3 = build_pubsub_frame(kind.as_slice(), channel, message, true);
        let ghost direct_clients = direct@;
        assert(routes(d@) =~= Seq::empty());
        address(
            &mut d,
            self,
            direct,
            None,
            &frame_resp2,
            &frame_resp3,
            Ghost(message_word()),
            channel,
            message,
        );
        proof {
            lemma_more_routes(Seq::empty(), direct_clients, None);
            assert(Seq::<(u64, Option<Seq<u8>>)>::empty() + routes_to(direct_clients, None)
                =~= routes_to(direct_clients, None));
        }
        let patterns: Vec<Bytes> = self.pattern_names();
        let ghost all = contents(patterns@);
        let mut j: usize = 0;
        assert forall|r: (u64, Option<Seq<u8>>)| #[trigger]
            routes(d@).contains(r) <==> due_so_far(self@, channel@, all.take(0), r) by {
            assert(direct_clients.contains(r.0) == direct_clients.to_set().contains(r.0));
        }
        while j < patterns.len()
            invariant
                self.wf(),
                j <= patterns.len(),
                all == contents(patterns@),
                all.no_duplicates(),
                all.to_set() == names_taken(self@.patterns),
                routes(d@).no_duplicates(),
                forall|r: (u64, Option<Seq<u8>>)| #[trigger]
                    routes(d@).contains(r) <==> due_so_far(
                        self@,
                        channel@,
                        all.take(j as int),
                        r,
                    ),
                framed(d@, self@.resp3, message_word(), channel@, message@),
            decreases patterns.len() - j,
        {
            let pattern: &Bytes = &patterns[j];
            let ghost name = all[j as int];
            let ghost before = routes(d@);
            assert(content(patterns@[j as int]) == name);
            assert(!all.take(j as int).contains(name));
            let hit: bool = glob_match(pattern.as_ref(), channel);
            if hit {
                let listeners: Vec<u64> = self.pattern_clients(pattern.as_ref());
                let ghost listening = listeners@;
                let frame_resp2 = build_pubsub_pframe(pattern.as_ref(), channel, message, false);
                let frame_resp3 = build_pubsub_pframe(pattern.as_ref(), channel, message, true);
                assert forall|c: u64| !before.contains((c, Some(name))) by {
                    assert(before.contains((c, Some(name))) <==> due_so_far(
                        self@,
                        channel@,
                        all.take(j as int),
                        (c, Some(name)),
                    ));
                }
                address(
                    &mut d,
                    self,
                    listeners,
                    Some(pattern),
                    &frame_resp2,
                    &frame_resp3,
                    Ghost(message_word()),
                    channel,
                    message,
                );
                proof {
                    lemma_more_routes(before, listening, Some(name));
                    assert forall|c: u64| listening.contains(c) <==> #[trigger]
                        self@.patterns.contains((c, name)) by {
                        assert(listening.to_set().contains(c) == clients_of(
                            self@.patterns,
                            name,
                        ).contains(c));
                    }
                }
            }
            proof {
                assert forall|r: (u64, Option<Seq<u8>>)| #[trigger]
                    routes(d@).contains(r) <==> due_so_far(
                        self@,
                        channel@,
                        all.take(j + 1),
                        r,
                    ) by {
                    assert(before.contains(r) <==> due_so_far(
                        self@,
                        channel@,
                        all.take(j as int),
                        r,
                    ));
                    if r.1 is Some {
                        lemma_take_one_more(all, j as int, r.1->Some_0);
                    }
                }
            }
            j += 1;
        }
        proof {
            assert(all.take(j as int) == all);
            assert forall|r: (u64, Option<Seq<u8>>)| routes(d@).to_set().contains(r) == due(
                self@,
                channel@,
            ).contains(r) by {
                assert(routes(d@).contains(r) <==> due_so_far(self@, channel@, all, r));
                match r.1 {
                    Some(p) => {
                        if self@.patterns.contains((r.0, p)) {
                            assert(names_taken(self@.patterns).contains(p));
                            assert(all.to_set().contains(p));
                        }
                    },
                    None => {},
                }
            }
            assert(routes(d@).to_set() =~= due(self@, channel@));
        }
        d
    }

    /// The frames that a message for a shard channel becomes, in no particular order.
    pub fn shard_deliveries(&self, channel: &[u8], message: &[u8]) -> (r: Vec<Delivery>)
        requires
            self.wf(),
        ensures
            routes(r@).no_duplicates(),
            routes(r@).to_set() == shard_due(self@, channel@),
            framed(r@, self@.resp3, smessage_word(), channel@, message@),
    {
        let mut d: Vec<Delivery> = Vec::new();
        let kind: Vec<u8> = vec![115, 109, 101, 115, 115, 97, 103, 101];
        assert(kind@ =~= smessage_word());
        let direct: Vec<u64> = self.shard_channel_clients(channel);
        let frame_resp2 = build_pubsub_frame(kind.as_slice(), channel, message, false);
        let frame_resp3 = build_pubsub_frame(kind.as_slice(), channel, message, true);
        let ghost clients = direct@;
        assert(routes(d@) =~= Seq::empty());
        address(
            &mut d,
            self,
            direct,
            None,
            &frame_resp2,
            &frame_resp3,
            Ghost(smessage_word()),
            channel,
            message,
        );
        proof {
            lemma_more_routes(Seq::empty(), clients, None);
            assert(Seq::<(u64, Option<Seq<u8>>)>::empty() + routes_to(clients, None) =~= routes_to(
                clients,
                None,
            ));
            assert forall|r: (u64, Option<Seq<u8>>)| routes(d@).to_set().contains(r) == shard_due(
                self@,
                channel@,
            ).contains(r) by {
                assert(routes(d@).contains(r) <==> r.1 is None && clients.contains(r.0));
                assert(clients.contains(r.0) == clients.to_set().contains(r.0));
            }
            assert(routes(d@).to_set() =~= shard_due(self@, channel@));
        }
        d
    }

    /// Offers each frame to its client once, in order, and gives which of them were taken. Whether
    /// a client takes its frame, its channel decides.
    fn offer(&mut self, d: &Vec<Delivery>) -> (r: Vec<bool>)
        requires
            old(self).wf(),
            forall|i: int|
                0 <= i < d@.len() ==> old(self)@.clients.dom().contains(
                    (#[trigger] d@[i]).client_id,
                ),
        ensures
            final(self).wf(),
            r@.len() == d@.len(),
            final(self)@ == (Hub { sent: old(self)@.sent + record(d@, r@), ..old(self)@ }),
    {
        let mut r: Vec<bool> = Vec::new();
        let mut i: usize = 0;
        assert(self@.sent =~= old(self)@.sent + record(d@.take(0), r@));
        while i < d.len()
            invariant
                i <= d.len(),
                self.wf(),
                r@.len() == i,
                forall|k: int|
                    0 <= k < d@.len() ==> old(self)@.clients.dom().contains(
                        (#[trigger] d@[k]).client_id,
                    ),
                self@ == (Hub {
                    sent: old(self)@.sent + record(d@.take(i as int), r@),
                    ..old(self)@
                }),
            decreases d.len() - i,
        {
            let ghost before = r@;
            let took: bool = self.hand(d[i].client_id, d[i].frame.clone());
            r.push(took);
            assert(record(d@.take(i + 1), r@) =~= record(d@.take(i as int), before).push(
                (d@[i as int].client_id, content(d@[i as int].frame), took),
            ));
            assert(self@.sent =~= old(self)@.sent + record(d@.take(i + 1), r@));
            i += 1;
        }
        assert(d@.take(i as int) == d@);
        r
    }

    /// Sends a message to the subscribers of a channel and of the patterns that match it, and gives
    /// the frames and which of them were taken.
    pub fn announce(&mut self, channel: &[u8], message: &[u8]) -> (r: Announcement)
        requires
            old(self).wf(),
        ensures
            final(self).wf(),
            announced(
                old(self)@,
                final(self)@,
                due(old(self)@, channel@),
                message_word(),
                channel@,
                message@,
                r,
            ),
    {
        let deliveries: Vec<Delivery> = self.deliveries(channel, message);
        proof {
            self.law_books_are_right();
        }
        assert forall|i: int| 0 <= i < deliveries@.len() implies self@.clients.dom().contains(
            (#[trigger] deliveries@[i]).client_id,
        ) by {
            let route = routes(deliveries@)[i];
            assert(routes(deliveries@).to_set().contains(route));
            lemma_due_has_an_end(self@, channel@, route);
        }
        let taken: Vec<bool> = self.offer(&deliveries);
        Announcement { deliveries, taken }
    }

    /// Sends a message to the subscribers of a channel and of the patterns that match it, and gives
    /// the number of frames that were taken. A client whose channel is full takes none.
    pub fn publish(&mut self, channel: &[u8], message: &[u8]) -> (r: usize)
        requires
            old(self).wf(),
        ensures
            final(self).wf(),
            r <= due(old(self)@, channel@).len(),
            exists|sent: Announcement|
                r == taken(sent.taken@) && #[trigger] announced(
                    old(self)@,
                    final(self)@,
                    due(old(self)@, channel@),
                    message_word(),
                    channel@,
                    message@,
                    sent,
                ),
    {
        let sent: Announcement = self.announce(channel, message);
        proof {
            routes(sent.deliveries@).unique_seq_to_set();
        }
        count_taken(&sent.taken)
    }

    /// Sends a message to the subscribers of a shard channel, and gives the frames and which of them
    /// were taken.
    pub fn sannounce(&mut self, channel: &[u8], message: &[u8]) -> (r: Announcement)
        requires
            old(self).wf(),
        ensures
            final(self).wf(),
            announced(
                old(self)@,
                final(self)@,
                shard_due(old(self)@, channel@),
                smessage_word(),
                channel@,
                message@,
                r,
            ),
    {
        let deliveries: Vec<Delivery> = self.shard_deliveries(channel, message);
        proof {
            self.law_books_are_right();
        }
        assert forall|i: int| 0 <= i < deliveries@.len() implies self@.clients.dom().contains(
            (#[trigger] deliveries@[i]).client_id,
        ) by {
            let route = routes(deliveries@)[i];
            assert(routes(deliveries@).to_set().contains(route));
            lemma_due_has_an_end(self@, channel@, route);
        }
        let taken: Vec<bool> = self.offer(&deliveries);
        Announcement { deliveries, taken }
    }

    /// Sends a message to the subscribers of a shard channel, and gives the number of frames that
    /// were taken. A client whose channel is full takes none.
    pub fn spublish(&mut self, channel: &[u8], message: &[u8]) -> (r: usize)
        requires
            old(self).wf(),
        ensures
            final(self).wf(),
            r <= shard_due(old(self)@, channel@).len(),
            exists|sent: Announcement|
                r == taken(sent.taken@) && #[trigger] announced(
                    old(self)@,
                    final(self)@,
                    shard_due(old(self)@, channel@),
                    smessage_word(),
                    channel@,
                    message@,
                    sent,
                ),
    {
        let sent: Announcement = self.sannounce(channel, message);
        proof {
            routes(sent.deliveries@).unique_seq_to_set();
        }
        count_taken(&sent.taken)
    }
}

/// What was sent, and of each frame whether it was taken.
pub struct Announcement {
    pub deliveries: Vec<Delivery>,
    pub taken: Vec<bool>,
}

/// The record of frames that were offered once each, in order.
pub open spec fn record(d: Seq<Delivery>, taken: Seq<bool>) -> Seq<(u64, Seq<u8>, bool)> {
    Seq::new(d.len(), |i: int| (d[i].client_id, content(d[i].frame), taken[i]))
}

/// A hub before and after a message was sent: there is one frame on behalf of each route that is
/// due, each was offered to its client once, and nothing else was sent or changed.
pub open spec fn announced(
    before: Hub,
    after: Hub,
    due: Set<(u64, Option<Seq<u8>>)>,
    kind: Seq<u8>,
    channel: Seq<u8>,
    message: Seq<u8>,
    sent: Announcement,
) -> bool {
    &&& routes(sent.deliveries@).no_duplicates()
    &&& routes(sent.deliveries@).to_set() == due
    &&& framed(sent.deliveries@, before.resp3, kind, channel, message)
    &&& sent.taken@.len() == sent.deliveries@.len()
    &&& after == (Hub { sent: before.sent + record(sent.deliveries@, sent.taken@), ..before })
}

/// The frames of the second version of the protocol are arrays of bulk strings: of the kind, the
/// channel and the message for a subscription to a channel, and of `pmessage`, the pattern, the
/// channel and the message for one to a pattern. Those of the third differ in the first byte alone.
pub proof fn law_frames_are_arrays(
    kind: Seq<u8>,
    pattern: Seq<u8>,
    channel: Seq<u8>,
    message: Seq<u8>,
)
    ensures
        channel_frame(kind, channel, message, false) == array_of_bulks(
            seq![kind, channel, message],
        ),
        pattern_frame(pattern, channel, message, false) == array_of_bulks(
            seq![seq![112u8, 109, 101, 115, 115, 97, 103, 101], pattern, channel, message],
        ),
        channel_frame(kind, channel, message, true) == array_of_bulks(
            seq![kind, channel, message],
        ).update(0, 62),
        pattern_frame(pattern, channel, message, true) == array_of_bulks(
            seq![seq![112u8, 109, 101, 115, 115, 97, 103, 101], pattern, channel, message],
        ).update(0, 62),
{
    let three = seq![kind, channel, message];
    let four = seq![pmessage_word(), pattern, channel, message];
    lemma_bulks3(kind, channel, message);
    lemma_bulks4(pmessage_word(), pattern, channel, message);
    assert(channel_frame(kind, channel, message, false) =~= array_of_bulks(three));
    assert(pattern_frame(pattern, channel, message, false) =~= array_of_bulks(four));
    assert(array_of_bulks(three)[0] == 42);
    assert(array_of_bulks(four)[0] == 42);
    assert(channel_frame(kind, channel, message, true) =~= array_of_bulks(three).update(0, 62));
    assert(pattern_frame(pattern, channel, message, true) =~= array_of_bulks(four).update(0, 62));
}

/// A client that reads a frame of the second version back finds its words: for a subscription to a
/// channel `message`, the channel and the message, and for one to a pattern `pmessage`, the pattern,
/// the channel and the message, whatever follows.
pub proof fn law_frames_read_back(
    kind: Seq<u8>,
    pattern: Seq<u8>,
    channel: Seq<u8>,
    message: Seq<u8>,
    rest: Seq<u8>,
    env: &ParseEnv,
)
    requires
        kind.len() <= env.max_bulk_len,
        pattern.len() <= env.max_bulk_len,
        channel.len() <= env.max_bulk_len,
        message.len() <= env.max_bulk_len,
        8 <= env.max_bulk_len,
    ensures
        scan_array(channel_frame(kind, channel, message, false) + rest, env.max_bulk_len)
            == Scan::Done(
            seq![kind, channel, message],
            channel_frame(kind, channel, message, false).len() as int,
        ),
        scan_array(pattern_frame(pattern, channel, message, false) + rest, env.max_bulk_len)
            == Scan::Done(
            seq![seq![112u8, 109, 101, 115, 115, 97, 103, 101], pattern, channel, message],
            pattern_frame(pattern, channel, message, false).len() as int,
        ),
{
    law_frames_are_arrays(kind, pattern, channel, message);
    lemma_scan_frame(seq![kind, channel, message], rest, env.max_bulk_len);
    lemma_scan_frame(
        seq![pmessage_word(), pattern, channel, message],
        rest,
        env.max_bulk_len,
    );
}

/// Three bulk strings, one behind the other.
pub(crate) proof fn lemma_bulks3(x: Seq<u8>, y: Seq<u8>, z: Seq<u8>)
    ensures
        bulks(seq![x, y, z]) == bulk(x) + bulk(y) + bulk(z),
{
    assert(seq![x, y, z].skip(1) =~= seq![y, z]);
    assert(seq![y, z].skip(1) =~= seq![z]);
    assert(seq![z].skip(1) =~= Seq::<Seq<u8>>::empty());
    reveal_with_fuel(bulks, 4);
    assert(bulks(seq![x, y, z]) =~= bulk(x) + bulk(y) + bulk(z));
}

/// Four bulk strings, one behind the other.
proof fn lemma_bulks4(w: Seq<u8>, x: Seq<u8>, y: Seq<u8>, z: Seq<u8>)
    ensures
        bulks(seq![w, x, y, z]) == bulk(w) + bulk(x) + bulk(y) + bulk(z),
{
    assert(seq![w, x, y, z].skip(1) =~= seq![x, y, z]);
    lemma_bulks3(x, y, z);
    assert(bulks(seq![w, x, y, z]) =~= bulk(w) + bulk(x) + bulk(y) + bulk(z));
}

/// The bytes of ASCII text.
pub open spec fn letters(s: Seq<char>) -> Seq<u8> {
    s.map_values(|c: char| c as u8)
}

/// The words that open the frames.
pub proof fn law_words_of_frames()
    ensures
        message_word() == letters("message"@),
        smessage_word() == letters("smessage"@),
        pmessage_word() == letters("pmessage"@),
{
    reveal_strlit("message");
    reveal_strlit("smessage");
    reveal_strlit("pmessage");
    assert(message_word() =~= letters("message"@));
    assert(smessage_word() =~= letters("smessage"@));
    assert(pmessage_word() =~= letters("pmessage"@));
}

/// What a publication comes to for one client. A subscriber of the channel is sent the frame of the
/// message once; a subscriber of a pattern that matches is sent the frame that names the pattern
/// once; each in the version of the protocol that it speaks. Nobody else is sent anything.
pub proof fn law_subscribers_are_sent_their_frames(
    before: Hub,
    after: Hub,
    channel: Seq<u8>,
    message: Seq<u8>,
    sent: Announcement,
    client: u64,
    pattern: Seq<u8>,
)
    requires
        announced(before, after, due(before, channel), message_word(), channel, message, sent),
    ensures
        after.sent.len() == before.sent.len() + due(before, channel).len(),
        after.sent.take(before.sent.len() as int) == before.sent,
        before.channels.contains((client, channel)) ==> exists|taken: bool| #[trigger]
            after.sent.skip(before.sent.len() as int).contains(
                (
                    client,
                    channel_frame(
                        letters("message"@),
                        channel,
                        message,
                        before.resp3.contains(client),
                    ),
                    taken,
                ),
            ),
        before.patterns.contains((client, pattern)) && glob(pattern, channel) ==> exists|taken: bool|
            #[trigger]
            after.sent.skip(before.sent.len() as int).contains(
                (
                    client,
                    pattern_frame(pattern, channel, message, before.resp3.contains(client)),
                    taken,
                ),
            ),
        !before.channels.contains((client, channel)) && (forall|p: Seq<u8>|
            !(#[trigger] before.patterns.contains((client, p)) && glob(p, channel))) ==> forall|
            i: int,
        |
            before.sent.len() <= i < after.sent.len() ==> (#[trigger] after.sent[i]).0 != client,
{
    law_words_of_frames();
    let n = before.sent.len() as int;
    let d = sent.deliveries@;
    let new = record(d, sent.taken@);
    let all = due(before, channel);
    routes(d).unique_seq_to_set();
    assert(after.sent == before.sent + new);
    assert(after.sent.skip(n) =~= new);
    assert(after.sent.take(n) =~= before.sent);
    let whole = (client, None::<Seq<u8>>);
    if before.channels.contains((client, channel)) {
        assert(all.contains(whole));
        assert(routes(d).to_set().contains(whole));
        let i = choose|i: int| 0 <= i < routes(d).len() && routes(d)[i] == whole;
        assert(d[i].client_id == client);
        assert(content_opt(d[i].pattern) == None::<Seq<u8>>);
        assert(new[i] == (
            client,
            channel_frame(message_word(), channel, message, before.resp3.contains(client)),
            sent.taken@[i],
        ));
        assert(new.contains(new[i]));
    }
    let part = (client, Some(pattern));
    if before.patterns.contains((client, pattern)) && glob(pattern, channel) {
        assert(all.contains(part));
        assert(routes(d).to_set().contains(part));
        let i = choose|i: int| 0 <= i < routes(d).len() && routes(d)[i] == part;
        assert(d[i].client_id == client);
        assert(content_opt(d[i].pattern) == Some(pattern));
        assert(new[i] == (
            client,
            pattern_frame(pattern, channel, message, before.resp3.contains(client)),
            sent.taken@[i],
        ));
        assert(new.contains(new[i]));
    }
    if !before.channels.contains((client, channel)) && (forall|p: Seq<u8>|
        !(#[trigger] before.patterns.contains((client, p)) && glob(p, channel))) {
        assert forall|i: int| n <= i < after.sent.len() implies (#[trigger] after.sent[i]).0
            != client by {
            assert(after.sent[i] == new[i - n]);
            let route = routes(d)[i - n];
            assert(routes(d).contains(route));
            assert(all.contains(route));
            if route.0 == client {
                match route.1 {
                    Some(p) => {
                        assert(before.patterns.contains((client, p)));
                    },
                    None => {},
                }
            }
        }
    }
}

/// What a publication on a shard channel comes to for one client: a subscriber is sent the frame of
/// the message once, and nobody else is sent anything.
pub proof fn law_shard_subscribers_are_sent_their_frames(
    before: Hub,
    after: Hub,
    channel: Seq<u8>,
    message: Seq<u8>,
    sent: Announcement,
    client: u64,
)
    requires
        announced(
            before,
            after,
            shard_due(before, channel),
            smessage_word(),
            channel,
            message,
            sent,
        ),
    ensures
        after.sent.len() == before.sent.len() + shard_due(before, channel).len(),
        after.sent.take(before.sent.len() as int) == before.sent,
        before.shard_channels.contains((client, channel)) ==> exists|taken: bool| #[trigger]
            after.sent.skip(before.sent.len() as int).contains(
                (
                    client,
                    channel_frame(
                        letters("smessage"@),
                        channel,
                        message,
                        before.resp3.contains(client),
                    ),
                    taken,
                ),
            ),
        !before.shard_channels.contains((client, channel)) ==> forall|i: int|
            before.sent.len() <= i < after.sent.len() ==> (#[trigger] after.sent[i]).0 != client,
{
    law_words_of_frames();
    let n = before.sent.len() as int;
    let d = sent.deliveries@;
    let new = record(d, sent.taken@);
    let all = shard_due(before, channel);
    routes(d).unique_seq_to_set();
    assert(after.sent == before.sent + new);
    assert(after.sent.skip(n) =~= new);
    assert(after.sent.take(n) =~= before.sent);
    let whole = (client, None::<Seq<u8>>);
    if before.shard_channels.contains((client, channel)) {
        assert(all.contains(whole));
        assert(routes(d).to_set().contains(whole));
        let i = choose|i: int| 0 <= i < routes(d).len() && routes(d)[i] == whole;
        assert(d[i].client_id == client);
        assert(content_opt(d[i].pattern) == None::<Seq<u8>>);
        assert(new[i] == (
            client,
            channel_frame(smessage_word(), channel, message, before.resp3.contains(client)),
            sent.taken@[i],
        ));
        assert(new.contains(new[i]));
    } else {
        assert forall|i: int| n <= i < after.sent.len() implies (#[trigger] after.sent[i]).0
            != client by {
            assert(after.sent[i] == new[i - n]);
            assert(routes(d).contains(routes(d)[i - n]));
            assert(all.contains(routes(d)[i - n]));
        }
    }
}

/// Whoever is due a frame has a sending end.
proof fn lemma_due_has_an_end(hub: Hub, channel: Seq<u8>, route: (u64, Option<Seq<u8>>))
    requires
        hub.attended(),
        due(hub, channel).contains(route) || shard_due(hub, channel).contains(route),
    ensures
        hub.clients.dom().contains(route.0),
{
    let name = match route.1 {
        Some(p) => p,
        None => channel,
    };
    assert(hub.linked_to(route.0, name));
    assert(hub.linked(route.0));
}

/// The routes that are due on behalf of the channel or of one of the patterns.
spec fn due_so_far(
    hub: Hub,
    channel: Seq<u8>,
    patterns: Seq<Seq<u8>>,
    r: (u64, Option<Seq<u8>>),
) -> bool {
    match r.1 {
        None => hub.channels.contains((r.0, channel)),
        Some(p) => patterns.contains(p) && hub.patterns.contains((r.0, p)) && glob(p, channel),
    }
}

/// Whoever is subscribed when a message is published is due a frame of it, through a sending end
/// that the hub holds.
pub proof fn law_subscriber_is_due(hub: Hub, client: u64, name: Seq<u8>, channel: Seq<u8>)
    requires
        hub.bounded(),
        hub.attended(),
    ensures
        hub.channels.contains((client, channel)) ==> due(hub, channel).contains((client, None))
            && hub.clients.dom().contains(client),
        hub.patterns.contains((client, name)) && glob(name, channel) ==> due(hub, channel).contains(
            (client, Some(name)),
        ) && hub.clients.dom().contains(client),
{
    if hub.channels.contains((client, channel)) {
        assert(hub.linked_to(client, channel));
        assert(hub.linked(client));
    }
    if hub.patterns.contains((client, name)) {
        assert(hub.linked_to(client, name));
        assert(hub.linked(client));
    }
}

} // verus!
