//! The hub of a shard's subscriptions: which client listens to which channels and patterns, and
//! what the other shards need to know of it.
use bytes::Bytes;
use flume::Sender;
use vstd::prelude::*;

use crate::glob::{glob, glob_match};
use crate::lists::contents;
use crate::octets::content;
use crate::presence::{stripe_of, Presence, ShardedPresenceTable, PUBSUB_STRIPES};
use crate::roster::{clients_of, names_of, names_taken, without_client, Roster};
use crate::tables::{ClientSet, Outlets};

verus! {

/// What a hub holds: the links of clients to channels, patterns and shard channels, the latter also
/// with those of its clients that other shards keep, the sending ends of the clients, the clients
/// that speak the third version of the protocol, and what was sent so far: each frame with its
/// client and with whether it was taken.
#[verifier::ext_equal]
pub struct Hub {
    pub channels: Set<(u64, Seq<u8>)>,
    pub patterns: Set<(u64, Seq<u8>)>,
    pub shard_channels: Set<(u64, Seq<u8>)>,
    pub shard_held: Set<(u64, Seq<u8>)>,
    pub clients: Map<u64, Sender<Bytes>>,
    pub resp3: Set<u64>,
    pub sent: Seq<(u64, Seq<u8>, bool)>,
}

/// The links whose name is in a stripe.
pub open spec fn in_stripe(links: Set<(u64, Seq<u8>)>, stripe: int) -> Set<(u64, Seq<u8>)> {
    links.filter(|p: (u64, Seq<u8>)| stripe_of(p.1) == stripe)
}

impl Hub {
    /// How many subscriptions a client has, of all three kinds.
    pub open spec fn total(self, client: u64) -> nat {
        names_of(self.channels, client).len() + names_of(self.patterns, client).len() + names_of(
            self.shard_held,
            client,
        ).len()
    }

    /// Whether a client is linked to a name here.
    pub open spec fn linked_to(self, client: u64, name: Seq<u8>) -> bool {
        self.channels.contains((client, name)) || self.patterns.contains((client, name))
            || self.shard_channels.contains((client, name))
    }

    /// Whether a client has a link here.
    pub open spec fn linked(self, client: u64) -> bool {
        exists|name: Seq<u8>| self.linked_to(client, name)
    }

    /// How many subscriptions there are.
    pub open spec fn size(self) -> nat {
        self.channels.len() + self.patterns.len() + self.shard_held.len()
    }

    /// With a client's sending end and protocol noted.
    pub open spec fn greeted(self, client: u64, tx: Sender<Bytes>, is_resp3: bool) -> Hub {
        Hub {
            clients: self.clients.insert(client, tx),
            resp3: if is_resp3 {
                self.resp3.insert(client)
            } else {
                self.resp3.remove(client)
            },
            ..self
        }
    }

    /// With a client forgotten if it has no subscription left.
    pub open spec fn settled(self, client: u64) -> Hub {
        if self.total(client) == 0 {
            self.dismissed(client)
        } else {
            self
        }
    }

    /// With a client forgotten.
    pub open spec fn dismissed(self, client: u64) -> Hub {
        Hub { clients: self.clients.remove(client), resp3: self.resp3.remove(client), ..self }
    }

    /// With a client subscribed to a channel.
    pub open spec fn subscribed(
        self,
        client: u64,
        channel: Seq<u8>,
        tx: Sender<Bytes>,
        is_resp3: bool,
    ) -> Hub {
        Hub {
            channels: self.channels.insert((client, channel)),
            ..self.greeted(client, tx, is_resp3)
        }
    }

    /// With a client subscribed to a pattern.
    pub open spec fn psubscribed(
        self,
        client: u64,
        pattern: Seq<u8>,
        tx: Sender<Bytes>,
        is_resp3: bool,
    ) -> Hub {
        Hub {
            patterns: self.patterns.insert((client, pattern)),
            ..self.greeted(client, tx, is_resp3)
        }
    }

    /// With a client subscribed to a shard channel.
    pub open spec fn ssubscribed(
        self,
        client: u64,
        channel: Seq<u8>,
        tx: Sender<Bytes>,
        is_resp3: bool,
    ) -> Hub {
        Hub {
            shard_channels: self.shard_channels.insert((client, channel)),
            shard_held: self.shard_held.insert((client, channel)),
            ..self.greeted(client, tx, is_resp3)
        }
    }

    /// With a client no longer subscribed to a channel.
    pub open spec fn unsubscribed(self, client: u64, channel: Seq<u8>) -> Hub {
        (Hub { channels: self.channels.remove((client, channel)), ..self }).settled(client)
    }

    /// With a client no longer subscribed to a pattern.
    pub open spec fn punsubscribed(self, client: u64, pattern: Seq<u8>) -> Hub {
        (Hub { patterns: self.patterns.remove((client, pattern)), ..self }).settled(client)
    }

    /// With a client no longer subscribed to a shard channel.
    pub open spec fn sunsubscribed(self, client: u64, channel: Seq<u8>) -> Hub {
        (Hub {
            shard_channels: self.shard_channels.remove((client, channel)),
            shard_held: self.shard_held.remove((client, channel)),
            ..self
        }).settled(client)
    }

    /// With a client subscribed to no channel.
    pub open spec fn unsubscribed_all(self, client: u64) -> Hub {
        (Hub { channels: without_client(self.channels, client), ..self }).settled(client)
    }

    /// With a client subscribed to no pattern.
    pub open spec fn punsubscribed_all(self, client: u64) -> Hub {
        (Hub { patterns: without_client(self.patterns, client), ..self }).settled(client)
    }

    /// With a client subscribed to no shard channel.
    pub open spec fn sunsubscribed_all(self, client: u64) -> Hub {
        (Hub {
            shard_channels: without_client(self.shard_channels, client),
            shard_held: without_client(self.shard_held, client),
            ..self
        }).settled(client)
    }

    /// With a client and all its subscriptions gone.
    pub open spec fn removed(self, client: u64) -> Hub {
        (Hub {
            channels: without_client(self.channels, client),
            patterns: without_client(self.patterns, client),
            shard_channels: without_client(self.shard_channels, client),
            shard_held: without_client(self.shard_held, client),
            ..self
        }).dismissed(client)
    }

    /// The sets are finite, and their sizes together fit a counter.
    pub open spec fn bounded(self) -> bool {
        &&& self.channels.finite()
        &&& self.patterns.finite()
        &&& self.shard_channels.subset_of(self.shard_held)
        &&& self.shard_held.finite()
        &&& self.size() <= usize::MAX
    }

    /// A client that has a link here has a sending end, and one that speaks the third version of the
    /// protocol has too.
    pub open spec fn attended(self) -> bool {
        &&& forall|c: u64| #[trigger] self.linked(c) ==> self.clients.dom().contains(c)
        &&& self.resp3.subset_of(self.clients.dom())
    }

    /// The clients that have a sending end are those that have a subscription, and no other.
    pub open spec fn kept(self) -> bool {
        forall|c: u64| #[trigger] self.clients.dom().contains(c) <==> self.total(c) > 0
    }
}

/// A mark that follows a count: set when the count leaves zero, cleared when it comes back.
pub open spec fn moved(marks: Set<nat>, shard: nat, before: nat, after: nat) -> Set<nat> {
    if before == 0 && after > 0 {
        marks.insert(shard)
    } else if before > 0 && after == 0 {
        marks.remove(shard)
    } else {
        marks
    }
}

/// A presence table that follows the hub of a shard from one state to the next.
pub open spec fn followed(p: Presence, shard: nat, before: Hub, after: Hub) -> Presence {
    Presence {
        stripes: Seq::new(
            PUBSUB_STRIPES as nat,
            |s: int|
                moved(
                    p.stripes[s],
                    shard,
                    in_stripe(before.channels, s).len(),
                    in_stripe(after.channels, s).len(),
                ),
        ),
        patterns: moved(p.patterns, shard, before.patterns.len(), after.patterns.len()),
    }
}

/// A shard is marked for a stripe exactly where its hub has a subscription in it, and for patterns
/// exactly where it has one to a pattern.
pub open spec fn marked(p: Presence, shard: nat, hub: Hub) -> bool {
    &&& p.stripes.len() == PUBSUB_STRIPES
    &&& forall|s: int|
        0 <= s < PUBSUB_STRIPES ==> (#[trigger] p.stripes[s].contains(shard) <==> in_stripe(
            hub.channels,
            s,
        ).len() > 0)
    &&& p.patterns.contains(shard) <==> hub.patterns.len() > 0
}

/// A presence table that follows a hub stays right about it, and says of every other shard what it
/// said before.
pub proof fn law_presence_stays_right(p: Presence, shard: nat, before: Hub, after: Hub)
    requires
        marked(p, shard, before),
    ensures
        marked(followed(p, shard, before, after), shard, after),
        forall|other: nat, s: int|
            other != shard && 0 <= s < PUBSUB_STRIPES ==> (followed(p, shard, before, after).stripes[
                s
            ].contains(other) <==> #[trigger] p.stripes[s].contains(other)),
        forall|other: nat|
            other != shard ==> (followed(p, shard, before, after).patterns.contains(other)
                <==> #[trigger] p.patterns.contains(other)),
{
    let q = followed(p, shard, before, after);
    assert forall|s: int| 0 <= s < PUBSUB_STRIPES implies (#[trigger] q.stripes[s].contains(shard)
        <==> in_stripe(after.channels, s).len() > 0) by {
        assert(p.stripes[s].contains(shard) <==> in_stripe(before.channels, s).len() > 0);
    }
}

/// No message is kept from a shard that has a subscriber for it: where the presence table is right
/// about the hub, a message for a channel with a subscriber, or for one that a subscribed pattern
/// matches, concerns the shard.
pub proof fn law_subscribers_are_reached(
    p: Presence,
    shard: nat,
    hub: Hub,
    client: u64,
    name: Seq<u8>,
    channel: Seq<u8>,
)
    requires
        hub.bounded(),
        marked(p, shard, hub),
        hub.channels.contains((client, channel)) || hub.patterns.contains((client, name)),
    ensures
        p.interested(shard, channel),
{
    if hub.channels.contains((client, channel)) {
        let s = stripe_of(channel);
        hub.channels.lemma_len_filter(|p: (u64, Seq<u8>)| stripe_of(p.1) == s);
        assert(in_stripe(hub.channels, s).contains((client, channel)));
        assert(p.stripes[s].contains(shard) <==> in_stripe(hub.channels, s).len() > 0);
    }
}

/// The names of a client are finitely many, no more than the links, and none where it has no link.
proof fn lemma_names_of(links: Set<(u64, Seq<u8>)>, client: u64)
    requires
        links.finite(),
    ensures
        names_of(links, client).finite(),
        names_of(links, client).len() <= links.len(),
    decreases links.len(),
{
    if links.len() == 0 {
        assert(names_of(links, client) =~= Set::<Seq<u8>>::empty());
    } else {
        let p = links.choose();
        let rest = links.remove(p);
        lemma_names_of(rest, client);
        if p.0 == client {
            assert(names_of(links, client) =~= names_of(rest, client).insert(p.1));
        } else {
            assert(names_of(links, client) =~= names_of(rest, client));
        }
    }
}

/// A client's count is made of its names alone, and is within the size of the hub.
proof fn lemma_total(h: Hub, client: u64)
    requires
        h.bounded(),
    ensures
        h.total(client) <= h.size(),
        names_of(h.channels, client).finite(),
        names_of(h.patterns, client).finite(),
        names_of(h.shard_held, client).finite(),
{
    lemma_names_of(h.channels, client);
    lemma_names_of(h.patterns, client);
    lemma_names_of(h.shard_held, client);
}

/// A client with a link has a subscription.
proof fn lemma_linked(h: Hub, client: u64)
    requires
        h.bounded(),
    ensures
        h.linked(client) ==> h.total(client) > 0,
{
    lemma_total(h, client);
    if h.linked(client) {
        let name = choose|name: Seq<u8>| h.linked_to(client, name);
        if h.channels.contains((client, name)) {
            assert(names_of(h.channels, client).contains(name));
        } else if h.patterns.contains((client, name)) {
            assert(names_of(h.patterns, client).contains(name));
        } else {
            assert(names_of(h.shard_held, client).contains(name));
        }
    }
}

/// A hub that attends to its clients still does so with no links but those that it had and those of
/// a client that has a sending end.
proof fn lemma_still_attended(before: Hub, after: Hub, client: u64)
    requires
        before.attended(),
        after.clients == before.clients,
        after.resp3 == before.resp3,
        forall|c: u64, n: Seq<u8>| #[trigger]
            after.channels.contains((c, n)) ==> before.channels.contains((c, n)) || (c == client
                && before.clients.dom().contains(c)),
        forall|c: u64, n: Seq<u8>| #[trigger]
            after.patterns.contains((c, n)) ==> before.patterns.contains((c, n)) || (c == client
                && before.clients.dom().contains(c)),
        forall|c: u64, n: Seq<u8>| #[trigger]
            after.shard_channels.contains((c, n)) ==> before.shard_channels.contains((c, n)) || (c
                == client && before.clients.dom().contains(c)),
    ensures
        after.attended(),
{
    assert forall|c: u64| #[trigger] after.linked(c) implies after.clients.dom().contains(c) by {
        let n = choose|n: Seq<u8>| after.linked_to(c, n);
        if !(c == client && before.clients.dom().contains(c)) {
            assert(before.linked_to(c, n));
            assert(before.linked(c));
        }
    }
}

/// One link more or less, seen from a stripe.
proof fn lemma_stripe_step(links: Set<(u64, Seq<u8>)>, client: u64, name: Seq<u8>, stripe: int)
    requires
        links.finite(),
    ensures
        in_stripe(links, stripe).finite(),
        in_stripe(links, stripe).len() <= links.len(),
        in_stripe(links.insert((client, name)), stripe).len() == in_stripe(links, stripe).len()
            + if !links.contains((client, name)) && stripe_of(name) == stripe {
            1int
        } else {
            0int
        },
        in_stripe(links.remove((client, name)), stripe).len() == in_stripe(links, stripe).len()
            - if links.contains((client, name)) && stripe_of(name) == stripe {
            1int
        } else {
            0int
        },
{
    let p = (client, name);
    links.lemma_len_filter(|p: (u64, Seq<u8>)| stripe_of(p.1) == stripe);
    if stripe_of(name) == stripe {
        assert(in_stripe(links.insert(p), stripe) =~= in_stripe(links, stripe).insert(p));
        assert(in_stripe(links.remove(p), stripe) =~= in_stripe(links, stripe).remove(p));
    } else {
        assert(in_stripe(links.insert(p), stripe) =~= in_stripe(links, stripe));
        assert(in_stripe(links.remove(p), stripe) =~= in_stripe(links, stripe));
    }
}

/// To unsubscribe undoes to subscribe: a client that was no subscriber of a channel leaves the links
/// as they were, and where it had no subscription and no sending end it leaves the whole hub as it
/// was.
pub proof fn law_unsubscribe_undoes_subscribe(
    hub: Hub,
    client: u64,
    channel: Seq<u8>,
    tx: Sender<Bytes>,
    is_resp3: bool,
)
    requires
        hub.bounded(),
        hub.attended(),
        !hub.channels.contains((client, channel)),
    ensures
        ({
            let left = hub.subscribed(client, channel, tx, is_resp3).unsubscribed(client, channel);
            &&& left.channels == hub.channels
            &&& left.patterns == hub.patterns
            &&& left.shard_channels == hub.shard_channels
            &&& left.shard_held == hub.shard_held
            &&& hub.total(client) == 0 && !hub.clients.dom().contains(client) ==> left == hub
        }),
{
    let entered = Hub {
        channels: hub.channels.insert((client, channel)),
        ..hub.greeted(client, tx, is_resp3)
    };
    let out = Hub { channels: entered.channels.remove((client, channel)), ..entered };
    let left = out.settled(client);
    assert(left.channels =~= hub.channels);
    assert(out.total(client) == hub.total(client));
    if hub.total(client) == 0 && !hub.clients.dom().contains(client) {
        assert(left.clients =~= hub.clients);
        assert(left.resp3 =~= hub.resp3);
        assert(left =~= hub);
    }
}

/// What a subscription enters. The client is linked to the name, of the kind that was asked for, and
/// has the sending end and the version of the protocol of the call; no other link and no other client
/// changes, and nothing is sent.
pub proof fn law_subscriptions_are_entered(
    hub: Hub,
    client: u64,
    name: Seq<u8>,
    tx: Sender<Bytes>,
    is_resp3: bool,
    c: u64,
    n: Seq<u8>,
)
    ensures
        ({
            let s = hub.subscribed(client, name, tx, is_resp3);
            &&& s.channels.contains((c, n)) <==> hub.channels.contains((c, n)) || (c == client && n
                == name)
            &&& s.patterns == hub.patterns
            &&& s.shard_channels == hub.shard_channels
            &&& s.shard_held == hub.shard_held
            &&& greets(hub, s, client, tx, is_resp3, c)
        }),
        ({
            let s = hub.psubscribed(client, name, tx, is_resp3);
            &&& s.patterns.contains((c, n)) <==> hub.patterns.contains((c, n)) || (c == client && n
                == name)
            &&& s.channels == hub.channels
            &&& s.shard_channels == hub.shard_channels
            &&& s.shard_held == hub.shard_held
            &&& greets(hub, s, client, tx, is_resp3, c)
        }),
        ({
            let s = hub.ssubscribed(client, name, tx, is_resp3);
            &&& s.shard_channels.contains((c, n)) <==> hub.shard_channels.contains((c, n)) || (c
                == client && n == name)
            &&& s.shard_held.contains((c, n)) <==> hub.shard_held.contains((c, n)) || (c == client
                && n == name)
            &&& s.channels == hub.channels
            &&& s.patterns == hub.patterns
            &&& greets(hub, s, client, tx, is_resp3, c)
        }),
{
}

/// A hub before and after a client's sending end and version of the protocol were noted, seen from a
/// client.
pub open spec fn greets(
    before: Hub,
    after: Hub,
    client: u64,
    tx: Sender<Bytes>,
    is_resp3: bool,
    c: u64,
) -> bool {
    &&& after.clients.contains_key(client) && after.clients[client] == tx
    &&& after.resp3.contains(client) <==> is_resp3
    &&& c != client ==> (after.clients.contains_key(c) <==> before.clients.contains_key(c))
    &&& c != client && before.clients.contains_key(c) ==> after.clients[c] == before.clients[c]
    &&& c != client ==> (after.resp3.contains(c) <==> before.resp3.contains(c))
    &&& after.sent == before.sent
}

/// A hub before and after a client was let go where it has no subscription left, seen from a client.
pub open spec fn lets_go(before: Hub, after: Hub, client: u64, c: u64) -> bool {
    &&& after.total(client) == 0 ==> !after.clients.contains_key(client) && !after.resp3.contains(
        client,
    )
    &&& after.total(client) > 0 ==> after.clients == before.clients && after.resp3 == before.resp3
    &&& c != client ==> (after.clients.contains_key(c) <==> before.clients.contains_key(c))
    &&& c != client && before.clients.contains_key(c) ==> after.clients[c] == before.clients[c]
    &&& c != client ==> (after.resp3.contains(c) <==> before.resp3.contains(c))
    &&& after.sent == before.sent
}

/// What is left when a subscription ends. The client is no longer linked to the name, or to any name
/// of the kind; no other link changes; and the client is let go only where nothing of it is left.
pub proof fn law_subscriptions_are_left(
    hub: Hub,
    client: u64,
    name: Seq<u8>,
    c: u64,
    n: Seq<u8>,
)
    ensures
        ({
            let s = hub.unsubscribed(client, name);
            &&& s.channels.contains((c, n)) <==> hub.channels.contains((c, n)) && !(c == client && n
                == name)
            &&& s.patterns == hub.patterns
            &&& s.shard_channels == hub.shard_channels
            &&& s.shard_held == hub.shard_held
            &&& lets_go(hub, s, client, c)
        }),
        ({
            let s = hub.punsubscribed(client, name);
            &&& s.patterns.contains((c, n)) <==> hub.patterns.contains((c, n)) && !(c == client && n
                == name)
            &&& s.channels == hub.channels
            &&& s.shard_channels == hub.shard_channels
            &&& s.shard_held == hub.shard_held
            &&& lets_go(hub, s, client, c)
        }),
        ({
            let s = hub.sunsubscribed(client, name);
            &&& s.shard_channels.contains((c, n)) <==> hub.shard_channels.contains((c, n)) && !(c
                == client && n == name)
            &&& s.shard_held.contains((c, n)) <==> hub.shard_held.contains((c, n)) && !(c == client
                && n == name)
            &&& s.channels == hub.channels
            &&& s.patterns == hub.patterns
            &&& lets_go(hub, s, client, c)
        }),
        ({
            let s = hub.unsubscribed_all(client);
            &&& s.channels.contains((c, n)) <==> hub.channels.contains((c, n)) && c != client
            &&& s.patterns == hub.patterns
            &&& s.shard_held == hub.shard_held
            &&& lets_go(hub, s, client, c)
        }),
        ({
            let s = hub.punsubscribed_all(client);
            &&& s.patterns.contains((c, n)) <==> hub.patterns.contains((c, n)) && c != client
            &&& s.channels == hub.channels
            &&& s.shard_held == hub.shard_held
            &&& lets_go(hub, s, client, c)
        }),
        ({
            let s = hub.sunsubscribed_all(client);
            &&& s.shard_channels.contains((c, n)) <==> hub.shard_channels.contains((c, n)) && c
                != client
            &&& s.shard_held.contains((c, n)) <==> hub.shard_held.contains((c, n)) && c != client
            &&& s.channels == hub.channels
            &&& s.patterns == hub.patterns
            &&& lets_go(hub, s, client, c)
        }),
        ({
            let s = hub.removed(client);
            &&& s.channels.contains((c, n)) <==> hub.channels.contains((c, n)) && c != client
            &&& s.patterns.contains((c, n)) <==> hub.patterns.contains((c, n)) && c != client
            &&& s.shard_channels.contains((c, n)) <==> hub.shard_channels.contains((c, n)) && c
                != client
            &&& s.shard_held.contains((c, n)) <==> hub.shard_held.contains((c, n)) && c != client
            &&& !s.clients.contains_key(client)
            &&& !s.resp3.contains(client)
            &&& c != client ==> (s.clients.contains_key(c) <==> hub.clients.contains_key(c))
            &&& c != client && hub.clients.contains_key(c) ==> s.clients[c] == hub.clients[c]
            &&& s.sent == hub.sent
        }),
{
}

/// What is counted: of a channel its subscribers, of the patterns those that have one, and of a client
/// its subscriptions; a subscription that was not there counts for one.
pub proof fn law_subscriptions_are_counted(
    hub: Hub,
    client: u64,
    name: Seq<u8>,
    tx: Sender<Bytes>,
    is_resp3: bool,
)
    requires
        hub.bounded(),
    ensures
        !hub.channels.contains((client, name)) ==> hub.subscribed(
            client,
            name,
            tx,
            is_resp3,
        ).total(client) == hub.total(client) + 1,
        !hub.patterns.contains((client, name)) ==> hub.psubscribed(
            client,
            name,
            tx,
            is_resp3,
        ).total(client) == hub.total(client) + 1,
        !hub.shard_held.contains((client, name)) ==> hub.ssubscribed(
            client,
            name,
            tx,
            is_resp3,
        ).total(client) == hub.total(client) + 1,
{
    lemma_names_of(hub.channels, client);
    lemma_names_of(hub.patterns, client);
    lemma_names_of(hub.shard_held, client);
    let a = hub.subscribed(client, name, tx, is_resp3);
    assert(names_of(a.channels, client) =~= names_of(hub.channels, client).insert(name));
    let b = hub.psubscribed(client, name, tx, is_resp3);
    assert(names_of(b.patterns, client) =~= names_of(hub.patterns, client).insert(name));
    let c = hub.ssubscribed(client, name, tx, is_resp3);
    assert(names_of(c.shard_held, client) =~= names_of(hub.shard_held, client).insert(name));
}

/// To subscribe again to what one is subscribed to changes no link and no count, and no presence
/// table that follows; only the sending end and the version of the protocol are those of the last
/// call.
pub proof fn law_subscribe_again(
    p: Presence,
    shard: nat,
    hub: Hub,
    client: u64,
    name: Seq<u8>,
    tx: Sender<Bytes>,
    is_resp3: bool,
)
    requires
        hub.bounded(),
        p.stripes.len() == PUBSUB_STRIPES,
    ensures
        hub.channels.contains((client, name)) ==> {
            let after = hub.subscribed(client, name, tx, is_resp3);
            after == hub.greeted(client, tx, is_resp3) && after.total(client) == hub.total(client)
                && followed(p, shard, hub, after) == p
        },
        hub.patterns.contains((client, name)) ==> {
            let after = hub.psubscribed(client, name, tx, is_resp3);
            after == hub.greeted(client, tx, is_resp3) && after.total(client) == hub.total(client)
                && followed(p, shard, hub, after) == p
        },
        hub.shard_channels.contains((client, name)) ==> {
            let after = hub.ssubscribed(client, name, tx, is_resp3);
            after == hub.greeted(client, tx, is_resp3) && after.total(client) == hub.total(client)
                && followed(p, shard, hub, after) == p
        },
        ({
            let after = hub.greeted(client, tx, is_resp3);
            &&& after.channels == hub.channels
            &&& after.patterns == hub.patterns
            &&& after.shard_channels == hub.shard_channels
            &&& after.shard_held == hub.shard_held
            &&& after.clients == hub.clients.insert(client, tx)
            &&& after.resp3.contains(client) <==> is_resp3
            &&& forall|c: u64|
                c != client ==> (#[trigger] after.resp3.contains(c) <==> hub.resp3.contains(c))
        }),
{
    let again = hub.greeted(client, tx, is_resp3);
    assert(followed(p, shard, hub, again).stripes =~= p.stripes);
    if hub.channels.contains((client, name)) {
        assert(hub.channels.insert((client, name)) =~= hub.channels);
    }
    if hub.patterns.contains((client, name)) {
        assert(hub.patterns.insert((client, name)) =~= hub.patterns);
    }
    if hub.shard_channels.contains((client, name)) {
        assert(hub.shard_channels.insert((client, name)) =~= hub.shard_channels);
        assert(hub.shard_held.insert((client, name)) =~= hub.shard_held);
    }
}

/// A hub that changed for one client alone, and is right about that, is right about all.
proof fn lemma_kept(before: Hub, after: Hub, client: u64)
    requires
        before.kept(),
        forall|c: u64, n: Seq<u8>|
            c != client ==> (#[trigger] after.channels.contains((c, n)) <==> before.channels.contains(
                (c, n),
            )),
        forall|c: u64, n: Seq<u8>|
            c != client ==> (#[trigger] after.patterns.contains((c, n)) <==> before.patterns.contains(
                (c, n),
            )),
        forall|c: u64, n: Seq<u8>|
            c != client ==> (#[trigger] after.shard_held.contains((c, n))
                <==> before.shard_held.contains((c, n))),
        forall|c: u64|
            c != client ==> (#[trigger] after.clients.dom().contains(c)
                <==> before.clients.dom().contains(c)),
        after.clients.dom().contains(client) <==> after.total(client) > 0,
    ensures
        after.kept(),
{
    assert forall|c: u64| #[trigger] after.clients.dom().contains(c) <==> after.total(c) > 0 by {
        if c != client {
            assert(names_of(after.channels, c) =~= names_of(before.channels, c));
            assert(names_of(after.patterns, c) =~= names_of(before.patterns, c));
            assert(names_of(after.shard_held, c) =~= names_of(before.shard_held, c));
            assert(before.clients.dom().contains(c) <==> before.total(c) > 0);
        }
    }
}

/// A client with a subscription has a count.
proof fn lemma_some_total(hub: Hub, client: u64, name: Seq<u8>)
    requires
        hub.channels.finite(),
        hub.patterns.finite(),
        hub.shard_held.finite(),
        hub.channels.contains((client, name)) || hub.patterns.contains((client, name))
            || hub.shard_held.contains((client, name)),
    ensures
        hub.total(client) > 0,
{
    lemma_names_of(hub.channels, client);
    lemma_names_of(hub.patterns, client);
    lemma_names_of(hub.shard_held, client);
    assert(names_of(hub.channels, client).contains(name) || names_of(hub.patterns, client).contains(
        name,
    ) || names_of(hub.shard_held, client).contains(name));
}

/// A client that leaves something is kept where it has something left.
proof fn lemma_settled(before: Hub, after: Hub, client: u64)
    requires
        before.bounded(),
        before.kept(),
        after.clients == before.clients,
        after.channels.subset_of(before.channels),
        after.patterns.subset_of(before.patterns),
        after.shard_held.subset_of(before.shard_held),
        forall|c: u64, n: Seq<u8>|
            c != client && before.channels.contains((c, n)) ==> #[trigger] after.channels.contains(
                (c, n),
            ),
        forall|c: u64, n: Seq<u8>|
            c != client && before.patterns.contains((c, n)) ==> #[trigger] after.patterns.contains(
                (c, n),
            ),
        forall|c: u64, n: Seq<u8>|
            c != client && before.shard_held.contains((c, n)) ==> #[trigger] after.shard_held.contains(
                (c, n),
            ),
    ensures
        after.settled(client).kept(),
{
    let end = after.settled(client);
    assert(end.total(client) == after.total(client));
    if after.total(client) > 0 {
        let a = names_of(after.channels, client);
        let b = names_of(after.patterns, client);
        let c = names_of(after.shard_held, client);
        lemma_names_of(after.channels, client);
        lemma_names_of(after.patterns, client);
        lemma_names_of(after.shard_held, client);
        let name = if a.len() > 0 {
            a.choose()
        } else if b.len() > 0 {
            b.choose()
        } else {
            c.choose()
        };
        assert(a.contains(name) || b.contains(name) || c.contains(name));
        lemma_some_total(before, client, name);
        assert(before.clients.dom().contains(client));
    }
    lemma_kept(before, end, client);
}

/// A client is kept exactly as long as it has a subscription: whatever it enters or leaves, the
/// clients that have a sending end are those that have a subscription.
pub proof fn law_clients_are_kept(
    hub: Hub,
    client: u64,
    name: Seq<u8>,
    tx: Sender<Bytes>,
    is_resp3: bool,
)
    requires
        hub.bounded(),
        hub.kept(),
    ensures
        hub.subscribed(client, name, tx, is_resp3).kept(),
        hub.psubscribed(client, name, tx, is_resp3).kept(),
        hub.ssubscribed(client, name, tx, is_resp3).kept(),
        hub.unsubscribed(client, name).kept(),
        hub.punsubscribed(client, name).kept(),
        hub.sunsubscribed(client, name).kept(),
        hub.unsubscribed_all(client).kept(),
        hub.punsubscribed_all(client).kept(),
        hub.sunsubscribed_all(client).kept(),
        hub.removed(client).kept(),
{
    assert(hub.clients.dom().contains(client) <==> hub.total(client) > 0);
    let a = hub.subscribed(client, name, tx, is_resp3);
    lemma_some_total(a, client, name);
    lemma_kept(hub, a, client);
    let b = hub.psubscribed(client, name, tx, is_resp3);
    lemma_some_total(b, client, name);
    lemma_kept(hub, b, client);
    let c = hub.ssubscribed(client, name, tx, is_resp3);
    lemma_some_total(c, client, name);
    lemma_kept(hub, c, client);
    lemma_settled(hub, (Hub { channels: hub.channels.remove((client, name)), ..hub }), client);
    lemma_settled(hub, (Hub { patterns: hub.patterns.remove((client, name)), ..hub }), client);
    lemma_settled(
        hub,
        (Hub {
            shard_channels: hub.shard_channels.remove((client, name)),
            shard_held: hub.shard_held.remove((client, name)),
            ..hub
        }),
        client,
    );
    lemma_settled(hub, (Hub { channels: without_client(hub.channels, client), ..hub }), client);
    lemma_settled(hub, (Hub { patterns: without_client(hub.patterns, client), ..hub }), client);
    lemma_settled(
        hub,
        (Hub {
            shard_channels: without_client(hub.shard_channels, client),
            shard_held: without_client(hub.shard_held, client),
            ..hub
        }),
        client,
    );
    let g = hub.removed(client);
    assert(names_of(g.channels, client) =~= Set::<Seq<u8>>::empty());
    assert(names_of(g.patterns, client) =~= Set::<Seq<u8>>::empty());
    assert(names_of(g.shard_held, client) =~= Set::<Seq<u8>>::empty());
    lemma_kept(hub, g, client);
}

/// The hub of a shard's subscriptions.
pub struct PubSubHub {
    channels: Roster,
    patterns: Roster,
    shard_channels: Roster,
    clients: Outlets,
    client_resp3: ClientSet,
    stripe_counts: [usize; PUBSUB_STRIPES],
    total_patterns: usize,
}

impl View for PubSubHub {
    type V = Hub;

    closed spec fn view(&self) -> Hub {
        Hub {
            channels: self.channels@,
            patterns: self.patterns@,
            shard_channels: self.shard_channels@,
            shard_held: self.shard_channels.held(),
            clients: self.clients@,
            resp3: self.client_resp3@,
            sent: self.clients.sent(),
        }
    }
}

impl Default for PubSubHub {
    fn default() -> (r: Self)
        ensures
            r.wf(),
            r@.channels == Set::<(u64, Seq<u8>)>::empty(),
            r@.patterns == Set::<(u64, Seq<u8>)>::empty(),
            r@.shard_channels == Set::<(u64, Seq<u8>)>::empty(),
            r@.shard_held == Set::<(u64, Seq<u8>)>::empty(),
            r@.clients.dom() == Set::<u64>::empty(),
            r@.resp3 == Set::<u64>::empty(),
            r@.sent == Seq::<(u64, Seq<u8>, bool)>::empty(),
            r@.kept(),
    {
        Self::new()
    }
}

impl PubSubHub {
    /// The counters count the links.
    closed spec fn counted(&self) -> bool {
        &&& self.channels.wf()
        &&& self.patterns.wf()
        &&& self.shard_channels.wf()
        &&& self.channels.held() == self.channels@
        &&& self.patterns.held() == self.patterns@
        &&& self@.bounded()
        &&& forall|s: int|
            0 <= s < PUBSUB_STRIPES ==> #[trigger] self.stripe_counts[s] == in_stripe(
                self@.channels,
                s,
            ).len()
        &&& self.total_patterns == self@.patterns.len()
    }

    /// The hub is sound: its counters are right, and it attends to the clients that have a link
    /// here.
    pub closed spec fn wf(&self) -> bool {
        &&& self.counted()
        &&& self@.attended()
    }

    /// The counter of a stripe.
    pub closed spec fn stripe_count(&self, stripe: int) -> nat {
        self.stripe_counts[stripe] as nat
    }

    /// The counter of the subscriptions to patterns.
    pub closed spec fn pattern_count(&self) -> nat {
        self.total_patterns as nat
    }

    /// The tables of the channels.
    pub closed spec fn channel_roster(&self) -> Roster {
        self.channels
    }

    /// The tables of the patterns.
    pub closed spec fn pattern_roster(&self) -> Roster {
        self.patterns
    }

    /// The tables of the shard channels.
    pub closed spec fn shard_roster(&self) -> Roster {
        self.shard_channels
    }

    /// The books of a sound hub are right. Both sides of each table say the same, and hold no name
    /// and no client without anything; the counters are the sums of what they count; a client with
    /// a link here has a sending end, and so has one that speaks the third version of the protocol.
    pub proof fn law_books_are_right(&self)
        requires
            self.wf(),
        ensures
            self@.bounded(),
            self@.attended(),
            self.channel_roster()@ == self@.channels,
            self.channel_roster().held() == self@.channels,
            self.channel_roster().tidy(),
            self.pattern_roster()@ == self@.patterns,
            self.pattern_roster().held() == self@.patterns,
            self.pattern_roster().tidy(),
            self.shard_roster()@ == self@.shard_channels,
            self.shard_roster().held() == self@.shard_held,
            self.shard_roster().tidy(),
            forall|s: int|
                0 <= s < PUBSUB_STRIPES ==> #[trigger] self.stripe_count(s) == in_stripe(
                    self@.channels,
                    s,
                ).len(),
            self.pattern_count() == self@.patterns.len(),
    {
        self.channels.lemma_tidy();
        self.patterns.lemma_tidy();
        self.shard_channels.lemma_tidy();
        assert forall|s: int| 0 <= s < PUBSUB_STRIPES implies #[trigger] self.stripe_count(s)
            == in_stripe(self@.channels, s).len() by {
            assert(self.stripe_counts[s] == in_stripe(self@.channels, s).len());
        }
    }

    /// A hub without subscriptions.
    pub fn new() -> (r: Self)
        ensures
            r.wf(),
            r@.channels == Set::<(u64, Seq<u8>)>::empty(),
            r@.patterns == Set::<(u64, Seq<u8>)>::empty(),
            r@.shard_channels == Set::<(u64, Seq<u8>)>::empty(),
            r@.shard_held == Set::<(u64, Seq<u8>)>::empty(),
            r@.clients.dom() == Set::<u64>::empty(),
            r@.resp3 == Set::<u64>::empty(),
            r@.sent == Seq::<(u64, Seq<u8>, bool)>::empty(),
            r@.kept(),
    {
        let r = PubSubHub {
            channels: Roster::new(),
            patterns: Roster::new(),
            shard_channels: Roster::new(),
            clients: Outlets::new(),
            client_resp3: ClientSet::new(),
            stripe_counts: [0usize; PUBSUB_STRIPES],
            total_patterns: 0,
        };
        proof {
            assert forall|s: int| 0 <= s < PUBSUB_STRIPES implies #[trigger] r.stripe_counts[s]
                == in_stripe(r@.channels, s).len() by {
                assert(in_stripe(r@.channels, s) =~= Set::<(u64, Seq<u8>)>::empty());
            }
            assert forall|c: u64| #[trigger]
                r@.clients.dom().contains(c) <==> r@.total(c) > 0 by {
                lemma_names_of(r@.channels, c);
                lemma_names_of(r@.patterns, c);
                lemma_names_of(r@.shard_held, c);
            }
        }
        r
    }

    /// How many subscriptions a client has, of all three kinds.
    pub fn total_subscriptions(&self, client_id: u64) -> (r: usize)
        requires
            self.wf(),
        ensures
            r == self@.total(client_id),
    {
        self.count_of(client_id)
    }

    fn count_of(&self, client_id: u64) -> (r: usize)
        requires
            self.counted(),
        ensures
            r == self@.total(client_id),
    {
        proof {
            lemma_total(self@, client_id);
        }
        self.channels.count(client_id) + self.patterns.count(client_id) + self.shard_channels.count(
            client_id,
        )
    }

    /// Whether a client speaks the third version of the protocol.
    pub fn speaks_resp3(&self, client_id: u64) -> (r: bool)
        ensures
            r == self@.resp3.contains(client_id),
    {
        self.client_resp3.contains(client_id)
    }

    /// Notes a client's sending end and its protocol.
    fn greet(&mut self, client_id: u64, tx: Sender<Bytes>, is_resp3: bool)
        requires
            old(self).wf(),
        ensures
            final(self).wf(),
            final(self)@ == old(self)@.greeted(client_id, tx, is_resp3),
            final(self).stripe_counts == old(self).stripe_counts,
            final(self).channels == old(self).channels,
    {
        self.clients.insert(client_id, tx);
        if is_resp3 {
            self.client_resp3.insert(client_id);
        } else {
            self.client_resp3.remove(client_id);
        }
        assert forall|c: u64| #[trigger] self@.linked(c) implies self@.clients.dom().contains(
            c,
        ) by {
            let n = choose|n: Seq<u8>| self@.linked_to(c, n);
            assert(old(self)@.linked_to(c, n));
            assert(old(self)@.linked(c));
        }
    }

    /// Forgets a client that has no subscription left, and gives the number that it has.
    fn settle(&mut self, client_id: u64) -> (r: usize)
        requires
            old(self).wf(),
        ensures
            final(self).wf(),
            final(self)@ == old(self)@.settled(client_id),
            r == old(self)@.total(client_id),
    {
        let total: usize = self.count_of(client_id);
        if total == 0 {
            self.clients.remove(client_id);
            self.client_resp3.remove(client_id);
        }
        proof {
            lemma_linked(old(self)@, client_id);
            assert forall|c: u64| #[trigger] self@.linked(c) implies self@.clients.dom().contains(
                c,
            ) by {
                let n = choose|n: Seq<u8>| self@.linked_to(c, n);
                assert(old(self)@.linked_to(c, n));
                assert(old(self)@.linked(c));
            }
        }
        total
    }

    /// Links a client to a channel, and says whether it is the first link in the channel's stripe.
    fn enter_channel(&mut self, client_id: u64, channel: Bytes) -> (r: bool)
        requires
            old(self).wf(),
            old(self)@.clients.dom().contains(client_id),
            old(self)@.size() < usize::MAX,
        ensures
            final(self).wf(),
            final(self)@ == (Hub {
                channels: old(self)@.channels.insert((client_id, content(channel))),
                ..old(self)@
            }),
            r == (in_stripe(old(self)@.channels, stripe_of(content(channel))).len() == 0),
    {
        let stripe: usize = ShardedPresenceTable::stripe_for(channel.as_ref());
        let first: bool = self.stripe_counts[stripe] == 0;
        let ghost name = content(channel);
        let ghost links = self@.channels;
        proof {
            lemma_stripe_step(links, client_id, name, stripe as int);
            if first {
                assert(in_stripe(links, stripe as int) =~= Set::<(u64, Seq<u8>)>::empty());
                if links.contains((client_id, name)) {
                    assert(in_stripe(links, stripe as int).contains((client_id, name)));
                }
            }
        }
        let newly: bool = self.channels.link(client_id, channel);
        if newly {
            self.stripe_counts[stripe] = self.stripe_counts[stripe] + 1;
        }
        proof {
            assert forall|s: int| 0 <= s < PUBSUB_STRIPES implies #[trigger] self.stripe_counts[s]
                == in_stripe(self@.channels, s).len() by {
                lemma_stripe_step(links, client_id, name, s);
                assert(old(self).stripe_counts[s] == in_stripe(links, s).len());
            }
            lemma_still_attended(old(self)@, self@, client_id);
        }
        first
    }

    /// Unlinks a client from a channel, and says whether it was the last link in the channel's
    /// stripe.
    fn leave_channel(&mut self, client_id: u64, channel: &[u8]) -> (r: bool)
        requires
            old(self).wf(),
        ensures
            final(self).wf(),
            final(self)@ == (Hub {
                channels: old(self)@.channels.remove((client_id, channel@)),
                ..old(self)@
            }),
            r == (in_stripe(old(self)@.channels, stripe_of(channel@)).len() > 0 && in_stripe(
                final(self)@.channels,
                stripe_of(channel@),
            ).len() == 0),
    {
        let stripe: usize = ShardedPresenceTable::stripe_for(channel);
        let ghost links = self@.channels;
        let was: bool = self.channels.unlink(client_id, channel);
        proof {
            lemma_stripe_step(links, client_id, channel@, stripe as int);
        }
        if was {
            assert(in_stripe(links, stripe as int).contains((client_id, channel@)));
            assert(old(self).stripe_counts[stripe as int] == in_stripe(links, stripe as int).len());
            self.stripe_counts[stripe] = self.stripe_counts[stripe].saturating_sub(1);
        }
        proof {
            assert forall|s: int| 0 <= s < PUBSUB_STRIPES implies #[trigger] self.stripe_counts[s]
                == in_stripe(self@.channels, s).len() by {
                lemma_stripe_step(links, client_id, channel@, s);
                assert(old(self).stripe_counts[s] == in_stripe(links, s).len());
            }
            lemma_still_attended(old(self)@, self@, client_id);
        }
        was && self.stripe_counts[stripe] == 0
    }

    /// Subscribes a client to a channel, and gives the number of its subscriptions. The presence
    /// table, where there is one, follows.
    pub fn subscribe_with_presence(
        &mut self,
        client_id: u64,
        channel: Bytes,
        tx: Sender<Bytes>,
        is_resp3: bool,
        presence_info: Option<(usize, &mut ShardedPresenceTable)>,
    ) -> (r: usize)
        requires
            old(self).wf(),
            old(self)@.size() < usize::MAX,
        ensures
            final(self).wf(),
            final(self)@ == old(self)@.subscribed(client_id, content(channel), tx, is_resp3),
            r == final(self)@.total(client_id),
            match presence_info {
                Some((shard_id, presence)) => final(presence)@ == followed(
                    presence@,
                    shard_id as nat,
                    old(self)@,
                    final(self)@,
                ),
                None => true,
            },
    {
        let key = channel.clone();
        self.greet(client_id, tx, is_resp3);
        let first: bool = self.enter_channel(client_id, channel);
        match presence_info {
            Some((shard_id, presence)) => {
                let ghost before = presence@;
                if first {
                    presence.add_subscriber(shard_id, key.as_ref());
                }
                proof {
                    lemma_followed_enter(
                        before,
                        presence@,
                        shard_id as nat,
                        old(self)@,
                        self@,
                        client_id,
                        content(key),
                        first,
                    );
                }
            },
            None => {},
        }
        self.count_of(client_id)
    }

    /// Subscribes a client to a channel, and gives the number of its subscriptions.
    pub fn subscribe(
        &mut self,
        client_id: u64,
        channel: Bytes,
        tx: Sender<Bytes>,
        is_resp3: bool,
    ) -> (r: usize)
        requires
            old(self).wf(),
            old(self)@.size() < usize::MAX,
        ensures
            final(self).wf(),
            final(self)@ == old(self)@.subscribed(client_id, content(channel), tx, is_resp3),
            r == final(self)@.total(client_id),
    {
        self.subscribe_with_presence(client_id, channel, tx, is_resp3, None)
    }

    /// Ends a client's subscription to a channel, and gives the number of those that it has left.
    /// The presence table, where there is one, follows.
    pub fn unsubscribe_with_presence(
        &mut self,
        client_id: u64,
        channel: &[u8],
        presence_info: Option<(usize, &mut ShardedPresenceTable)>,
    ) -> (r: usize)
        requires
            old(self).wf(),
        ensures
            final(self).wf(),
            final(self)@ == old(self)@.unsubscribed(client_id, channel@),
            r == final(self)@.total(client_id),
            match presence_info {
                Some((shard_id, presence)) => final(presence)@ == followed(
                    presence@,
                    shard_id as nat,
                    old(self)@,
                    final(self)@,
                ),
                None => true,
            },
    {
        let last: bool = self.leave_channel(client_id, channel);
        match presence_info {
            Some((shard_id, presence)) => {
                let ghost before = presence@;
                if last {
                    presence.remove_subscriber(shard_id, channel);
                }
                proof {
                    lemma_followed_leave(
                        before,
                        presence@,
                        shard_id as nat,
                        old(self)@,
                        self@,
                        client_id,
                        channel@,
                        last,
                    );
                }
            },
            None => {},
        }
        self.settle(client_id)
    }

    /// Ends a client's subscription to a channel, and gives the number of those that it has left.
    pub fn unsubscribe(&mut self, client_id: u64, channel: &[u8]) -> (r: usize)
        requires
            old(self).wf(),
        ensures
            final(self).wf(),
            final(self)@ == old(self)@.unsubscribed(client_id, channel@),
            r == final(self)@.total(client_id),
    {
        self.unsubscribe_with_presence(client_id, channel, None)
    }
}

/// The names of a list of counted names.
pub open spec fn counted_names(r: Seq<(Bytes, usize)>) -> Seq<Seq<u8>> {
    r.map_values(|x: (Bytes, usize)| content(x.0))
}

/// Gives each name the same count.
fn with_count(names: Vec<Bytes>, count: usize) -> (r: Vec<(Bytes, usize)>)
    ensures
        counted_names(r@) == contents(names@),
        forall|i: int| 0 <= i < r@.len() ==> (#[trigger] r@[i]).1 == count,
{
    let mut r: Vec<(Bytes, usize)> = Vec::new();
    let mut i: usize = 0;
    while i < names.len()
        invariant
            i <= names.len(),
            r@.len() == i,
            forall|k: int| 0 <= k < i ==> content((#[trigger] r@[k]).0) == content(names@[k])
                && r@[k].1 == count,
        decreases names.len() - i,
    {
        r.push((names[i].clone(), count));
        i += 1;
    }
    assert(counted_names(r@) =~= contents(names@));
    r
}

/// The links of a client are as many as its names.
proof fn lemma_without_len(links: Set<(u64, Seq<u8>)>, client: u64)
    requires
        links.finite(),
    ensures
        without_client(links, client).finite(),
        links.len() == without_client(links, client).len() + names_of(links, client).len(),
    decreases links.len(),
{
    if links.len() == 0 {
        assert(without_client(links, client) =~= links);
        assert(names_of(links, client) =~= Set::<Seq<u8>>::empty());
    } else {
        let p = links.choose();
        let rest = links.remove(p);
        lemma_without_len(rest, client);
        lemma_names_of(rest, client);
        if p.0 == client {
            assert(without_client(links, client) =~= without_client(rest, client));
            assert(names_of(links, client) =~= names_of(rest, client).insert(p.1));
            assert(!names_of(rest, client).contains(p.1));
        } else {
            assert(without_client(links, client) =~= without_client(rest, client).insert(p));
            assert(names_of(links, client) =~= names_of(rest, client));
        }
    }
}

/// A client that loses all its links of one kind: the others are attended to as before.
proof fn lemma_all_left(before: Hub, after: Hub, client: u64)
    requires
        before.bounded(),
        before.attended(),
        after.clients == before.clients,
        after.resp3 == before.resp3,
        after.channels == before.channels || after.channels == without_client(
            before.channels,
            client,
        ),
        after.patterns == before.patterns || after.patterns == without_client(
            before.patterns,
            client,
        ),
        (after.shard_channels == before.shard_channels && after.shard_held == before.shard_held) || (
        after.shard_channels == without_client(before.shard_channels, client) && after.shard_held
            == without_client(before.shard_held, client)),
    ensures
        after.bounded(),
        after.attended(),
{
    lemma_without_len(before.channels, client);
    lemma_without_len(before.patterns, client);
    lemma_without_len(before.shard_held, client);
    lemma_still_attended(before, after, client);
}

impl PubSubHub {
    /// Unlinks a client from all its channels, and gives those. The presence table follows.
    fn leave_channels(
        &mut self,
        client_id: u64,
        shard_id: usize,
        presence: &mut ShardedPresenceTable,
    ) -> (r: Vec<Bytes>)
        requires
            old(self).wf(),
        ensures
            final(self).wf(),
            final(self)@ == (Hub {
                channels: without_client(old(self)@.channels, client_id),
                ..old(self)@
            }),
            contents(r@).no_duplicates(),
            contents(r@).to_set() == names_of(old(self)@.channels, client_id),
            final(presence)@ == followed(
                old(presence)@,
                shard_id as nat,
                old(self)@,
                final(self)@,
            ),
    {
        let ghost links = self@.channels;
        let names: Vec<Bytes> = self.channels.unlink_all(client_id);
        let ghost all = contents(names@);
        let ghost mut left = links;
        let mut i: usize = 0;
        proof {
            let f = followed(presence@, shard_id as nat, old(self)@, old(self)@);
            assert(f.stripes =~= presence@.stripes);
        }
        while i < names.len()
            invariant
                i <= names.len(),
                all == contents(names@),
                all.no_duplicates(),
                all.to_set() == names_of(links, client_id),
                links == old(self)@.channels,
                links.finite(),
                left.finite(),
                left.subset_of(links),
                links.len() <= usize::MAX,
                forall|c: u64, n: Seq<u8>|
                    #![trigger left.contains((c, n))]
                    left.contains((c, n)) <==> (links.contains((c, n)) && !(c == client_id
                        && all.take(i as int).contains(n))),
                forall|s: int|
                    0 <= s < PUBSUB_STRIPES ==> #[trigger] self.stripe_counts[s] == in_stripe(
                        left,
                        s,
                    ).len(),
                self@ == (Hub { channels: without_client(links, client_id), ..old(self)@ }),
                self.channels.wf(),
                self.patterns.wf(),
                self.shard_channels.wf(),
                self.channels.held() == self.channels@,
                self.patterns.held() == self.patterns@,
                self.total_patterns == old(self).total_patterns,
                presence@ == followed(
                    old(presence)@,
                    shard_id as nat,
                    old(self)@,
                    (Hub { channels: left, ..old(self)@ }),
                ),
            decreases names.len() - i,
        {
            let ghost n = all[i as int];
            let ghost before = left;
            let ghost told = presence@;
            let stripe: usize = ShardedPresenceTable::stripe_for(names[i].as_ref());
            proof {
                assert(content(names@[i as int]) == n);
                assert(all.to_set().contains(n));
                assert(names_of(links, client_id).contains(n));
                assert(!all.take(i as int).contains(n));
                assert(left.contains((client_id, n)));
                left = left.remove((client_id, n));
                lemma_stripe_step(before, client_id, n, stripe as int);
                assert(in_stripe(before, stripe as int).contains((client_id, n)));
                assert(self.stripe_counts[stripe as int] == in_stripe(before, stripe as int).len());
            }
            self.stripe_counts[stripe] = self.stripe_counts[stripe].saturating_sub(1);
            if self.stripe_counts[stripe] == 0 {
                presence.remove_subscriber(shard_id, names[i].as_ref());
            }
            proof {
                assert forall|s: int| 0 <= s < PUBSUB_STRIPES implies #[trigger]
                    self.stripe_counts[s] == in_stripe(left, s).len() by {
                    lemma_stripe_step(before, client_id, n, s);
                }
                assert forall|c: u64, m: Seq<u8>|
                    #![trigger left.contains((c, m))]
                    left.contains((c, m)) <==> (links.contains((c, m)) && !(c == client_id
                        && all.take(i + 1).contains(m))) by {
                    lemma_take_one_more(all, i as int, m);
                    assert(left.contains((c, m)) == (before.contains((c, m)) && (c, m) != (
                        client_id,
                        n,
                    )));
                }
                lemma_followed_one(
                    old(presence)@,
                    told,
                    presence@,
                    shard_id as nat,
                    old(self)@,
                    before,
                    left,
                    client_id,
                    n,
                );
            }
            i += 1;
        }
        proof {
            assert(all.take(i as int) == all);
            let rest = without_client(links, client_id);
            assert forall|p: (u64, Seq<u8>)| left.contains(p) == rest.contains(p) by {
                assert(left.contains((p.0, p.1)) == rest.contains((p.0, p.1))) by {
                    if p.0 == client_id && links.contains((p.0, p.1)) {
                        assert(names_of(links, client_id).contains(p.1));
                        assert(all.to_set().contains(p.1));
                    }
                }
            }
            assert(left =~= rest);
            lemma_all_left(old(self)@, self@, client_id);
        }
        names
    }

    /// Ends all subscriptions of a client to channels, and gives each with the number of those that
    /// it has left. The presence table, where there is one, follows.
    pub fn unsubscribe_all_with_presence(
        &mut self,
        client_id: u64,
        presence_info: Option<(usize, &mut ShardedPresenceTable)>,
    ) -> (r: Vec<(Bytes, usize)>)
        requires
            old(self).wf(),
        ensures
            final(self).wf(),
            final(self)@ == old(self)@.unsubscribed_all(client_id),
            counted_names(r@).no_duplicates(),
            counted_names(r@).to_set() == names_of(old(self)@.channels, client_id),
            forall|i: int|
                0 <= i < r@.len() ==> (#[trigger] r@[i]).1 == final(self)@.total(client_id),
            match presence_info {
                Some((shard_id, presence)) => final(presence)@ == followed(
                    presence@,
                    shard_id as nat,
                    old(self)@,
                    final(self)@,
                ),
                None => true,
            },
    {
        let names: Vec<Bytes> = match presence_info {
            Some((shard_id, presence)) => self.leave_channels(client_id, shard_id, presence),
            None => {
                let mut unread = ShardedPresenceTable::new();
                self.leave_channels(client_id, 0, &mut unread)
            },
        };
        let total: usize = self.settle(client_id);
        with_count(names, total)
    }

    /// Ends all subscriptions of a client to channels, and gives each with the number of those that
    /// it has left.
    pub fn unsubscribe_all(&mut self, client_id: u64) -> (r: Vec<(Bytes, usize)>)
        requires
            old(self).wf(),
        ensures
            final(self).wf(),
            final(self)@ == old(self)@.unsubscribed_all(client_id),
            counted_names(r@).no_duplicates(),
            counted_names(r@).to_set() == names_of(old(self)@.channels, client_id),
            forall|i: int|
                0 <= i < r@.len() ==> (#[trigger] r@[i]).1 == final(self)@.total(client_id),
    {
        self.unsubscribe_all_with_presence(client_id, None)
    }

    /// Subscribes a client to a pattern, and gives the number of its subscriptions. The presence
    /// table, where there is one, follows.
    pub fn psubscribe_with_presence(
        &mut self,
        client_id: u64,
        pattern: Bytes,
        tx: Sender<Bytes>,
        is_resp3: bool,
        presence_info: Option<(usize, &mut ShardedPresenceTable)>,
    ) -> (r: usize)
        requires
            old(self).wf(),
            old(self)@.size() < usize::MAX,
        ensures
            final(self).wf(),
            final(self)@ == old(self)@.psubscribed(client_id, content(pattern), tx, is_resp3),
            r == final(self)@.total(client_id),
            match presence_info {
                Some((shard_id, presence)) => final(presence)@ == followed(
                    presence@,
                    shard_id as nat,
                    old(self)@,
                    final(self)@,
                ),
                None => true,
            },
    {
        self.greet(client_id, tx, is_resp3);
        let first: bool = self.total_patterns == 0;
        let ghost name = content(pattern);
        let newly: bool = self.patterns.link(client_id, pattern);
        if newly {
            self.total_patterns = self.total_patterns + 1;
        }
        proof {
            lemma_still_attended(
                old(self)@.greeted(client_id, tx, is_resp3),
                self@,
                client_id,
            );
        }
        match presence_info {
            Some((shard_id, presence)) => {
                let ghost before = presence@;
                if first {
                    presence.add_pattern_subscriber(shard_id);
                }
                proof {
                    let f = followed(before, shard_id as nat, old(self)@, self@);
                    assert(presence@.stripes =~= f.stripes);
                    if first {
                        assert(old(self)@.patterns =~= Set::<(u64, Seq<u8>)>::empty());
                    }
                    assert(presence@ == f);
                }
            },
            None => {},
        }
        self.count_of(client_id)
    }

    /// Subscribes a client to a pattern, and gives the number of its subscriptions.
    pub fn psubscribe(
        &mut self,
        client_id: u64,
        pattern: Bytes,
        tx: Sender<Bytes>,
        is_resp3: bool,
    ) -> (r: usize)
        requires
            old(self).wf(),
            old(self)@.size() < usize::MAX,
        ensures
            final(self).wf(),
            final(self)@ == old(self)@.psubscribed(client_id, content(pattern), tx, is_resp3),
            r == final(self)@.total(client_id),
    {
        self.psubscribe_with_presence(client_id, pattern, tx, is_resp3, None)
    }

    /// Ends a client's subscription to a pattern, and gives the number of those that it has left.
    /// The presence table, where there is one, follows.
    pub fn punsubscribe_with_presence(
        &mut self,
        client_id: u64,
        pattern: &[u8],
        presence_info: Option<(usize, &mut ShardedPresenceTable)>,
    ) -> (r: usize)
        requires
            old(self).wf(),
        ensures
            final(self).wf(),
            final(self)@ == old(self)@.punsubscribed(client_id, pattern@),
            r == final(self)@.total(client_id),
            match presence_info {
                Some((shard_id, presence)) => final(presence)@ == followed(
                    presence@,
                    shard_id as nat,
                    old(self)@,
                    final(self)@,
                ),
                None => true,
            },
    {
        let was: bool = self.patterns.unlink(client_id, pattern);
        if was {
            self.total_patterns = self.total_patterns.saturating_sub(1);
        }
        let last: bool = was && self.total_patterns == 0;
        proof {
            lemma_still_attended(old(self)@, self@, client_id);
        }
        match presence_info {
            Some((shard_id, presence)) => {
                let ghost before = presence@;
                if last {
                    presence.remove_pattern_subscriber(shard_id);
                }
                proof {
                    let f = followed(before, shard_id as nat, old(self)@, self@);
                    assert(presence@.stripes =~= f.stripes);
                    assert(presence@ == f);
                }
            },
            None => {},
        }
        self.settle(client_id)
    }

    /// Ends a client's subscription to a pattern, and gives the number of those that it has left.
    pub fn punsubscribe(&mut self, client_id: u64, pattern: &[u8]) -> (r: usize)
        requires
            old(self).wf(),
        ensures
            final(self).wf(),
            final(self)@ == old(self)@.punsubscribed(client_id, pattern@),
            r == final(self)@.total(client_id),
    {
        self.punsubscribe_with_presence(client_id, pattern, None)
    }

    /// Ends all subscriptions of a client to patterns, and gives each with the number of those that
    /// it has left. The presence table, where there is one, follows.
    pub fn punsubscribe_all_with_presence(
        &mut self,
        client_id: u64,
        presence_info: Option<(usize, &mut ShardedPresenceTable)>,
    ) -> (r: Vec<(Bytes, usize)>)
        requires
            old(self).wf(),
        ensures
            final(self).wf(),
            final(self)@ == old(self)@.punsubscribed_all(client_id),
            counted_names(r@).no_duplicates(),
            counted_names(r@).to_set() == names_of(old(self)@.patterns, client_id),
            forall|i: int|
                0 <= i < r@.len() ==> (#[trigger] r@[i]).1 == final(self)@.total(client_id),
            match presence_info {
                Some((shard_id, presence)) => final(presence)@ == followed(
                    presence@,
                    shard_id as nat,
                    old(self)@,
                    final(self)@,
                ),
                None => true,
            },
    {
        let names: Vec<Bytes> = self.patterns.unlink_all(client_id);
        proof {
            contents(names@).unique_seq_to_set();
            lemma_without_len(old(self)@.patterns, client_id);
            lemma_all_left(old(self)@, self@, client_id);
        }
        self.total_patterns = self.total_patterns - names.len();
        let last: bool = names.len() > 0 && self.total_patterns == 0;
        match presence_info {
            Some((shard_id, presence)) => {
                let ghost before = presence@;
                if last {
                    presence.remove_pattern_subscriber(shard_id);
                }
                proof {
                    let f = followed(before, shard_id as nat, old(self)@, self@);
                    assert(presence@.stripes =~= f.stripes);
                    assert(presence@ == f);
                }
            },
            None => {},
        }
        let total: usize = self.settle(client_id);
        with_count(names, total)
    }

    /// Ends all subscriptions of a client to patterns, and gives each with the number of those that
    /// it has left.
    pub fn punsubscribe_all(&mut self, client_id: u64) -> (r: Vec<(Bytes, usize)>)
        requires
            old(self).wf(),
        ensures
            final(self).wf(),
            final(self)@ == old(self)@.punsubscribed_all(client_id),
            counted_names(r@).no_duplicates(),
            counted_names(r@).to_set() == names_of(old(self)@.patterns, client_id),
            forall|i: int|
                0 <= i < r@.len() ==> (#[trigger] r@[i]).1 == final(self)@.total(client_id),
    {
        self.punsubscribe_all_with_presence(client_id, None)
    }

    /// Subscribes a client to a shard channel, and gives the number of its subscriptions.
    pub fn ssubscribe(
        &mut self,
        client_id: u64,
        channel: Bytes,
        tx: Sender<Bytes>,
        is_resp3: bool,
    ) -> (r: usize)
        requires
            old(self).wf(),
            old(self)@.size() < usize::MAX,
        ensures
            final(self).wf(),
            final(self)@ == old(self)@.ssubscribed(client_id, content(channel), tx, is_resp3),
            r == final(self)@.total(client_id),
    {
        self.greet(client_id, tx, is_resp3);
        let ghost name = content(channel);
        self.shard_channels.link(client_id, channel);
        proof {
            lemma_still_attended(
                old(self)@.greeted(client_id, tx, is_resp3),
                self@,
                client_id,
            );
        }
        self.count_of(client_id)
    }

    /// Ends a client's subscription to a shard channel, and gives the number of those that it has
    /// left.
    pub fn sunsubscribe(&mut self, client_id: u64, channel: &[u8]) -> (r: usize)
        requires
            old(self).wf(),
        ensures
            final(self).wf(),
            final(self)@ == old(self)@.sunsubscribed(client_id, channel@),
            r == final(self)@.total(client_id),
    {
        self.shard_channels.unlink(client_id, channel);
        proof {
            lemma_still_attended(old(self)@, self@, client_id);
        }
        self.settle(client_id)
    }

    /// Notes that another shard keeps a client's subscription to a shard channel, and gives the
    /// number of its subscriptions.
    pub fn note_remote(&mut self, client_id: u64, channel: Bytes) -> (r: usize)
        requires
            old(self).wf(),
            old(self)@.size() < usize::MAX,
        ensures
            final(self).wf(),
            final(self)@ == (Hub {
                shard_held: old(self)@.shard_held.insert((client_id, content(channel))),
                ..old(self)@
            }),
            r == final(self)@.total(client_id),
    {
        self.shard_channels.note(client_id, channel);
        proof {
            lemma_still_attended(old(self)@, self@, client_id);
        }
        self.count_of(client_id)
    }

    /// Forgets that another shard keeps a client's subscription to a shard channel, and gives the
    /// number of those that it has left.
    pub fn forget_remote(&mut self, client_id: u64, channel: &[u8]) -> (r: usize)
        requires
            old(self).wf(),
            !old(self)@.shard_channels.contains((client_id, channel@)),
        ensures
            final(self).wf(),
            final(self)@ == (Hub {
                shard_held: old(self)@.shard_held.remove((client_id, channel@)),
                ..old(self)@
            }),
            r == final(self)@.total(client_id),
    {
        self.shard_channels.forget(client_id, channel);
        proof {
            lemma_still_attended(old(self)@, self@, client_id);
        }
        self.count_of(client_id)
    }

    /// The shard channels that a client is subscribed to, here or at another shard: each once, in no
    /// particular order.
    pub fn shard_names(&self, client_id: u64) -> (r: Vec<Bytes>)
        requires
            self.wf(),
        ensures
            contents(r@).no_duplicates(),
            contents(r@).to_set() == names_of(self@.shard_held, client_id),
    {
        self.shard_channels.names_for(client_id)
    }

    /// Ends all subscriptions of a client to shard channels, and gives each with the number of those
    /// that it has left.
    pub fn sunsubscribe_all(&mut self, client_id: u64) -> (r: Vec<(Bytes, usize)>)
        requires
            old(self).wf(),
        ensures
            final(self).wf(),
            final(self)@ == old(self)@.sunsubscribed_all(client_id),
            counted_names(r@).no_duplicates(),
            counted_names(r@).to_set() == names_of(old(self)@.shard_held, client_id),
            forall|i: int|
                0 <= i < r@.len() ==> (#[trigger] r@[i]).1 == final(self)@.total(client_id),
    {
        let names: Vec<Bytes> = self.shard_channels.unlink_all(client_id);
        proof {
            lemma_all_left(old(self)@, self@, client_id);
        }
        let total: usize = self.settle(client_id);
        with_count(names, total)
    }

    /// Forgets a client and all its subscriptions. The presence table, where there is one, follows.
    pub fn remove_client_with_presence(
        &mut self,
        client_id: u64,
        presence_info: Option<(usize, &mut ShardedPresenceTable)>,
    )
        requires
            old(self).wf(),
        ensures
            final(self).wf(),
            final(self)@ == old(self)@.removed(client_id),
            match presence_info {
                Some((shard_id, presence)) => final(presence)@ == followed(
                    presence@,
                    shard_id as nat,
                    old(self)@,
                    final(self)@,
                ),
                None => true,
            },
    {
        match presence_info {
            Some((shard_id, presence)) => {
                let ghost before = presence@;
                self.unsubscribe_all_with_presence(client_id, Some((shard_id, &mut *presence)));
                let ghost between = self@;
                self.punsubscribe_all_with_presence(client_id, Some((shard_id, &mut *presence)));
                proof {
                    let f = followed(before, shard_id as nat, old(self)@, self@);
                    let g = followed(before, shard_id as nat, old(self)@, between);
                    assert(presence@.stripes =~= f.stripes);
                    assert(g.patterns == before.patterns);
                    assert(presence@ == f);
                }
            },
            None => {
                self.unsubscribe_all(client_id);
                self.punsubscribe_all(client_id);
            },
        }
        self.sunsubscribe_all(client_id);
        let ghost before = self@;
        self.client_resp3.remove(client_id);
        self.clients.remove(client_id);
        proof {
            assert forall|c: u64| #[trigger] self@.linked(c) implies self@.clients.dom().contains(
                c,
            ) by {
                let n = choose|n: Seq<u8>| self@.linked_to(c, n);
                assert(before.linked_to(c, n));
                assert(before.linked(c));
                assert(c != client_id);
            }
            assert(self@.clients =~= old(self)@.clients.remove(client_id));
            assert(self@.resp3 =~= old(self)@.resp3.remove(client_id));
        }
    }

    /// Forgets a client and all its subscriptions.
    pub fn remove_client(&mut self, client_id: u64)
        requires
            old(self).wf(),
        ensures
            final(self).wf(),
            final(self)@ == old(self)@.removed(client_id),
    {
        self.remove_client_with_presence(client_id, None)
    }

    /// The channels that have a subscriber and match the pattern, if there is one: each once, in no
    /// particular order.
    pub fn channels(&self, pattern: Option<&[u8]>) -> (r: Vec<Bytes>)
        requires
            self.wf(),
        ensures
            contents(r@).no_duplicates(),
            contents(r@).to_set() == names_taken(self@.channels).filter(
                |n: Seq<u8>| wanted(pattern, n),
            ),
    {
        pick(self.channels.names(), pattern)
    }

    /// The shard channels that have a subscriber and match the pattern, if there is one: each once,
    /// in no particular order.
    pub fn shard_channels(&self, pattern: Option<&[u8]>) -> (r: Vec<Bytes>)
        requires
            self.wf(),
        ensures
            contents(r@).no_duplicates(),
            contents(r@).to_set() == names_taken(self@.shard_channels).filter(
                |n: Seq<u8>| wanted(pattern, n),
            ),
    {
        pick(self.shard_channels.names(), pattern)
    }

    /// How many clients are subscribed to a channel.
    pub fn numsub(&self, channel: &[u8]) -> (r: usize)
        requires
            self.wf(),
        ensures
            r == clients_of(self@.channels, channel@).len(),
    {
        self.channels.count_clients(channel)
    }

    /// How many clients are subscribed to a shard channel.
    pub fn shard_numsub(&self, channel: &[u8]) -> (r: usize)
        requires
            self.wf(),
        ensures
            r == clients_of(self@.shard_channels, channel@).len(),
    {
        self.shard_channels.count_clients(channel)
    }

    /// How many patterns have a subscriber.
    pub fn numpat(&self) -> (r: usize)
        requires
            self.wf(),
        ensures
            r == names_taken(self@.patterns).len(),
    {
        self.patterns.count_names()
    }

    /// The clients of a channel.
    pub(crate) fn channel_clients(&self, channel: &[u8]) -> (r: Vec<u64>)
        requires
            self.wf(),
        ensures
            r@.no_duplicates(),
            r@.to_set() == clients_of(self@.channels, channel@),
    {
        self.channels.clients(channel)
    }

    /// The clients of a shard channel.
    pub(crate) fn shard_channel_clients(&self, channel: &[u8]) -> (r: Vec<u64>)
        requires
            self.wf(),
        ensures
            r@.no_duplicates(),
            r@.to_set() == clients_of(self@.shard_channels, channel@),
    {
        self.shard_channels.clients(channel)
    }

    /// The clients of a pattern.
    pub(crate) fn pattern_clients(&self, pattern: &[u8]) -> (r: Vec<u64>)
        requires
            self.wf(),
        ensures
            r@.no_duplicates(),
            r@.to_set() == clients_of(self@.patterns, pattern@),
    {
        self.patterns.clients(pattern)
    }

    /// The patterns that have a subscriber.
    pub(crate) fn pattern_names(&self) -> (r: Vec<Bytes>)
        requires
            self.wf(),
        ensures
            contents(r@).no_duplicates(),
            contents(r@).to_set() == names_taken(self@.patterns),
    {
        self.patterns.names()
    }

    /// Offers a frame to a client once, and gives whether it was taken.
    pub(crate) fn hand(&mut self, client_id: u64, frame: Bytes) -> (r: bool)
        requires
            old(self).wf(),
            old(self)@.clients.dom().contains(client_id),
        ensures
            final(self).wf(),
            final(self)@ == (Hub {
                sent: old(self)@.sent.push((client_id, content(frame), r)),
                ..old(self)@
            }),
    {
        let r: bool = self.clients.offer(client_id, frame);
        assert forall|c: u64| #[trigger] self@.linked(c) implies self@.clients.dom().contains(
            c,
        ) by {
            let n = choose|n: Seq<u8>| self@.linked_to(c, n);
            assert(old(self)@.linked_to(c, n));
            assert(old(self)@.linked(c));
        }
        r
    }
}

/// What a hub tells of itself: how many subscribers a channel or a shard channel has, how many patterns
/// have one, and how many subscriptions a client has.
pub proof fn law_counts_are_told(
    hub: PubSubHub,
    name: &[u8],
    client: u64,
    subscribers: usize,
    shard_subscribers: usize,
    patterns: usize,
    total: usize,
)
    requires
        hub.wf(),
        call_ensures(PubSubHub::numsub, (&hub, name), subscribers),
        call_ensures(PubSubHub::shard_numsub, (&hub, name), shard_subscribers),
        call_ensures(PubSubHub::numpat, (&hub,), patterns),
        call_ensures(PubSubHub::total_subscriptions, (&hub, client), total),
    ensures
        subscribers == Set::new(|c: u64| hub@.channels.contains((c, name@))).len(),
        shard_subscribers == Set::new(|c: u64| hub@.shard_channels.contains((c, name@))).len(),
        patterns == Set::new(
            |n: Seq<u8>| exists|c: u64| hub@.patterns.contains((c, n)),
        ).len(),
        total == Set::new(|n: Seq<u8>| hub@.channels.contains((client, n))).len() + Set::new(
            |n: Seq<u8>| hub@.patterns.contains((client, n)),
        ).len() + Set::new(|n: Seq<u8>| hub@.shard_held.contains((client, n))).len(),
{
    assert(clients_of(hub@.channels, name@) =~= Set::new(
        |c: u64| hub@.channels.contains((c, name@)),
    ));
    assert(clients_of(hub@.shard_channels, name@) =~= Set::new(
        |c: u64| hub@.shard_channels.contains((c, name@)),
    ));
    assert(names_taken(hub@.patterns) =~= Set::new(
        |n: Seq<u8>| exists|c: u64| hub@.patterns.contains((c, n)),
    ));
    assert(names_of(hub@.channels, client) =~= Set::new(
        |n: Seq<u8>| hub@.channels.contains((client, n)),
    ));
    assert(names_of(hub@.patterns, client) =~= Set::new(
        |n: Seq<u8>| hub@.patterns.contains((client, n)),
    ));
    assert(names_of(hub@.shard_held, client) =~= Set::new(
        |n: Seq<u8>| hub@.shard_held.contains((client, n)),
    ));
}

/// Whether a name matches the pattern, if there is one.
pub open spec fn wanted(pattern: Option<&[u8]>, name: Seq<u8>) -> bool {
    match pattern {
        Some(p) => glob(p@, name),
        None => true,
    }
}

/// The names that match the pattern, if there is one.
fn pick(names: Vec<Bytes>, pattern: Option<&[u8]>) -> (r: Vec<Bytes>)
    requires
        contents(names@).no_duplicates(),
    ensures
        contents(r@).no_duplicates(),
        contents(r@).to_set() == contents(names@).to_set().filter(
            |n: Seq<u8>| wanted(pattern, n),
        ),
{
    let mut r: Vec<Bytes> = Vec::new();
    let mut i: usize = 0;
    let ghost all = contents(names@);
    while i < names.len()
        invariant
            i <= names.len(),
            all == contents(names@),
            all.no_duplicates(),
            contents(r@).no_duplicates(),
            forall|n: Seq<u8>|
                contents(r@).contains(n) <==> (#[trigger] all.take(i as int).contains(n) && wanted(
                    pattern,
                    n,
                )),
        decreases names.len() - i,
    {
        let ghost before = r@;
        let ghost n = all[i as int];
        assert(content(names@[i as int]) == n);
        let keep: bool = match pattern {
            Some(p) => glob_match(p, names[i].as_ref()),
            None => true,
        };
        assert(!all.take(i as int).contains(n));
        if keep {
            r.push(names[i].clone());
            assert(contents(r@) =~= contents(before).push(n));
        }
        proof {
            assert forall|m: Seq<u8>|
                contents(r@).contains(m) <==> (#[trigger] all.take(i + 1).contains(m) && wanted(
                    pattern,
                    m,
                )) by {
                lemma_take_one_more(all, i as int, m);
                assert(contents(before).contains(m) <==> (all.take(i as int).contains(m) && wanted(
                    pattern,
                    m,
                )));
                if keep {
                    lemma_push_contains(contents(before), n, m);
                }
            }
        }
        i += 1;
    }
    proof {
        assert(all.take(i as int) == all);
        assert forall|n: Seq<u8>| contents(r@).to_set().contains(n) == all.to_set().filter(
            |n: Seq<u8>| wanted(pattern, n),
        ).contains(n) by {
            assert(all.take(i as int).contains(n) == all.contains(n));
        }
        assert(contents(r@).to_set() =~= all.to_set().filter(|n: Seq<u8>| wanted(pattern, n)));
    }
    r
}

/// What a sequence with one item more contains.
pub(crate) proof fn lemma_push_contains<A>(s: Seq<A>, a: A, x: A)
    ensures
        s.push(a).contains(x) <==> s.contains(x) || x == a,
{
    if s.contains(x) {
        let k = choose|k: int| 0 <= k < s.len() && s[k] == x;
        assert(s.push(a)[k] == x);
    }
    assert(s.push(a)[s.len() as int] == a);
    if s.push(a).contains(x) && x != a {
        let k = choose|k: int| 0 <= k < s.push(a).len() && s.push(a)[k] == x;
        assert(s[k] == x);
    }
}

/// What one item more of a sequence contains.
pub(crate) proof fn lemma_take_one_more<A>(s: Seq<A>, i: int, x: A)
    requires
        0 <= i < s.len(),
    ensures
        s.take(i + 1).contains(x) <==> s.take(i).contains(x) || x == s[i],
{
    assert(s.take(i + 1) == s.take(i).push(s[i]));
    lemma_push_contains(s.take(i), s[i], x);
}

/// A presence table that follows a hub out of several links, one step.
proof fn lemma_followed_one(
    p: Presence,
    told: Presence,
    q: Presence,
    shard: nat,
    hub: Hub,
    before: Set<(u64, Seq<u8>)>,
    after: Set<(u64, Seq<u8>)>,
    client: u64,
    name: Seq<u8>,
)
    requires
        hub.channels.finite(),
        before.subset_of(hub.channels),
        before.finite(),
        before.contains((client, name)),
        after == before.remove((client, name)),
        told == followed(p, shard, hub, (Hub { channels: before, ..hub })),
        q == if in_stripe(after, stripe_of(name)).len() == 0 {
            told.left(shard, name)
        } else {
            told
        },
    ensures
        q == followed(p, shard, hub, (Hub { channels: after, ..hub })),
{
    let f = followed(p, shard, hub, (Hub { channels: after, ..hub }));
    assert forall|s: int| 0 <= s < PUBSUB_STRIPES implies q.stripes[s] == f.stripes[s] by {
        lemma_stripe_step(before, client, name, s);
        lemma_stripe_step(hub.channels, client, name, s);
        if s == stripe_of(name) {
            assert(in_stripe(before, s).contains((client, name)));
            assert(in_stripe(hub.channels, s).contains((client, name)));
        }
    }
    assert(q.stripes =~= f.stripes);
}

/// A presence table that is told of the first link in a stripe follows the hub.
proof fn lemma_followed_enter(
    p: Presence,
    q: Presence,
    shard: nat,
    before: Hub,
    after: Hub,
    client: u64,
    name: Seq<u8>,
    first: bool,
)
    requires
        p.stripes.len() == PUBSUB_STRIPES,
        before.bounded(),
        after.channels == before.channels.insert((client, name)),
        after.patterns == before.patterns,
        first == (in_stripe(before.channels, stripe_of(name)).len() == 0),
        q == if first {
            p.joined(shard, name)
        } else {
            p
        },
    ensures
        q == followed(p, shard, before, after),
{
    let f = followed(p, shard, before, after);
    assert forall|s: int| 0 <= s < PUBSUB_STRIPES implies q.stripes[s] == f.stripes[s] by {
        lemma_stripe_step(before.channels, client, name, s);
        if s == stripe_of(name) && first && before.channels.contains((client, name)) {
            assert(in_stripe(before.channels, s).contains((client, name)));
        }
    }
    assert(q.stripes =~= f.stripes);
}

/// A presence table that is told of the last link out of a stripe follows the hub.
proof fn lemma_followed_leave(
    p: Presence,
    q: Presence,
    shard: nat,
    before: Hub,
    after: Hub,
    client: u64,
    name: Seq<u8>,
    last: bool,
)
    requires
        p.stripes.len() == PUBSUB_STRIPES,
        before.bounded(),
        after.channels == before.channels.remove((client, name)),
        after.patterns == before.patterns,
        last == (in_stripe(before.channels, stripe_of(name)).len() > 0 && in_stripe(
            after.channels,
            stripe_of(name),
        ).len() == 0),
        q == if last {
            p.left(shard, name)
        } else {
            p
        },
    ensures
        q == followed(p, shard, before, after),
{
    let f = followed(p, shard, before, after);
    assert forall|s: int| 0 <= s < PUBSUB_STRIPES implies q.stripes[s] == f.stripes[s] by {
        lemma_stripe_step(before.channels, client, name, s);
    }
    assert(q.stripes =~= f.stripes);
}

} // verus!
