//! Which shards hold a subscriber, by stripe of channels.
use vstd::prelude::*;

use crate::hashing::{hash_key, key_hash};

verus! {

/// How many stripes the channels are spread over.
pub const PUBSUB_STRIPES: usize = 16;

/// Bit `i` of a word.
pub open spec fn bit(word: u64, i: u64) -> bool {
    (word >> i) & 1 == 1
}

/// A set of shards, one bit each.
pub struct ShardBits {
    pub words: Vec<u64>,
}

/// The shards whose bits are set.
pub open spec fn shards_in(words: Seq<u64>) -> Set<nat> {
    Set::new(|s: nat| s / 64 < words.len() && bit(words[(s / 64) as int], (s % 64) as u64))
}

impl View for ShardBits {
    type V = Set<nat>;

    open spec fn view(&self) -> Set<nat> {
        shards_in(self.words@)
    }
}

proof fn lemma_bits(x: u64, y: u64, k: u64, i: u64)
    requires
        k < 64,
        i < 64,
    ensures
        bit(x | (1u64 << k), i) == (i == k || bit(x, i)),
        bit(x & !(1u64 << k), i) == (i != k && bit(x, i)),
        bit(x | y, i) == (bit(x, i) || bit(y, i)),
        !bit(0, i),
{
    assert(((x | (1u64 << k)) >> i) & 1 == 1 <==> (i == k || (x >> i) & 1 == 1)) by (bit_vector)
        requires
            k < 64,
            i < 64,
    ;
    assert(((x & !(1u64 << k)) >> i) & 1 == 1 <==> (i != k && (x >> i) & 1 == 1)) by (bit_vector)
        requires
            k < 64,
            i < 64,
    ;
    assert(((x | y) >> i) & 1 == 1 <==> ((x >> i) & 1 == 1 || (y >> i) & 1 == 1)) by (bit_vector);
    assert((0u64 >> i) & 1 != 1) by (bit_vector);
}

impl ShardBits {
    /// No shard at all.
    pub fn new() -> (r: Self)
        ensures
            r@ == Set::<nat>::empty(),
    {
        let r = ShardBits { words: Vec::new() };
        assert(r@ =~= Set::<nat>::empty());
        r
    }

    /// Puts a shard in.
    pub fn insert(&mut self, shard: usize)
        ensures
            final(self)@ == old(self)@.insert(shard as nat),
    {
        let w: usize = shard / 64;
        while self.words.len() <= w
            invariant
                shards_in(self.words@) == shards_in(old(self).words@),
            decreases w + 1 - self.words.len(),
        {
            let ghost before = self.words@;
            self.words.push(0);
            assert forall|s: nat| shards_in(self.words@).contains(s) == shards_in(before).contains(s) by {
                lemma_bits(0, 0, 0, (s % 64) as u64);
            }
            assert(shards_in(self.words@) =~= shards_in(before));
        }
        let ghost before = self.words@;
        let k: u64 = (shard % 64) as u64;
        let word: u64 = self.words[w];
        self.words.set(w, word | (1u64 << k));
        assert forall|s: nat| #[trigger]
            shards_in(self.words@).contains(s) == shards_in(before).insert(shard as nat).contains(
                s,
            ) by {
            lemma_bits(word, 0, k, (s % 64) as u64);
            assert(s == shard <==> (s / 64 == shard / 64 && s % 64 == shard % 64));
        }
        assert(self@ =~= old(self)@.insert(shard as nat));
    }

    /// Takes a shard out.
    pub fn remove(&mut self, shard: usize)
        ensures
            final(self)@ == old(self)@.remove(shard as nat),
    {
        let w: usize = shard / 64;
        if w < self.words.len() {
            let ghost before = self.words@;
            let k: u64 = (shard % 64) as u64;
            let word: u64 = self.words[w];
            self.words.set(w, word & !(1u64 << k));
            assert forall|s: nat| #[trigger]
                shards_in(self.words@).contains(s) == shards_in(before).remove(
                    shard as nat,
                ).contains(s) by {
                lemma_bits(word, 0, k, (s % 64) as u64);
                assert(s == shard <==> (s / 64 == shard / 64 && s % 64 == shard % 64));
            }
        }
        assert(self@ =~= old(self)@.remove(shard as nat));
    }

    /// Whether a shard is in.
    pub fn contains(&self, shard: usize) -> (r: bool)
        ensures
            r == self@.contains(shard as nat),
    {
        let w: usize = shard / 64;
        if w < self.words.len() {
            let k: u64 = (shard % 64) as u64;
            (self.words[w] >> k) & 1 == 1
        } else {
            false
        }
    }

    /// The bits of the first 64 shards.
    pub fn first_word(&self) -> (r: u64)
        ensures
            forall|i: u64| i < 64 ==> bit(r, i) == self@.contains(i as nat),
    {
        if self.words.len() > 0 {
            self.words[0]
        } else {
            assert forall|i: u64| i < 64 implies !bit(0, i) by {
                lemma_bits(0, 0, 0, i);
            }
            0
        }
    }
}

/// Which shards hold a subscriber of a channel, by the stripe of the channel, and which hold a
/// subscriber of a pattern.
pub struct ShardedPresenceTable {
    pub channel_stripes: [ShardBits; PUBSUB_STRIPES],
    pub pattern_presence: ShardBits,
}

/// What a presence table holds.
#[verifier::ext_equal]
pub struct Presence {
    pub stripes: Seq<Set<nat>>,
    pub patterns: Set<nat>,
}

/// The stripe of a channel.
pub open spec fn stripe_of(channel: Seq<u8>) -> int {
    (key_hash(channel) as usize % PUBSUB_STRIPES) as int
}

/// No shard has a subscriber.
pub open spec fn nobody() -> Presence {
    Presence {
        stripes: Seq::new(PUBSUB_STRIPES as nat, |i: int| Set::<nat>::empty()),
        patterns: Set::empty(),
    }
}

impl Presence {
    /// With a subscriber of `channel` at `shard`.
    pub open spec fn joined(self, shard: nat, channel: Seq<u8>) -> Presence {
        let s = stripe_of(channel);
        Presence { stripes: self.stripes.update(s, self.stripes[s].insert(shard)), ..self }
    }

    /// Without a subscriber of the stripe of `channel` at `shard`.
    pub open spec fn left(self, shard: nat, channel: Seq<u8>) -> Presence {
        let s = stripe_of(channel);
        Presence { stripes: self.stripes.update(s, self.stripes[s].remove(shard)), ..self }
    }

    /// Whether a message for `channel` concerns `shard`.
    pub open spec fn interested(self, shard: nat, channel: Seq<u8>) -> bool {
        self.stripes[stripe_of(channel)].contains(shard) || self.patterns.contains(shard)
    }
}

impl View for ShardedPresenceTable {
    type V = Presence;

    open spec fn view(&self) -> Presence {
        Presence {
            stripes: Seq::new(PUBSUB_STRIPES as nat, |i: int| self.channel_stripes[i]@),
            patterns: self.pattern_presence@,
        }
    }
}

impl Default for ShardedPresenceTable {
    fn default() -> (r: Self)
        ensures
            r@ == nobody(),
    {
        Self::new()
    }
}

impl ShardedPresenceTable {
    /// A table without subscribers.
    pub fn new() -> (r: Self)
        ensures
            r@ == nobody(),
    {
        let r = ShardedPresenceTable {
            channel_stripes: [
                ShardBits::new(),
                ShardBits::new(),
                ShardBits::new(),
                ShardBits::new(),
                ShardBits::new(),
                ShardBits::new(),
                ShardBits::new(),
                ShardBits::new(),
                ShardBits::new(),
                ShardBits::new(),
                ShardBits::new(),
                ShardBits::new(),
                ShardBits::new(),
                ShardBits::new(),
                ShardBits::new(),
                ShardBits::new(),
            ],
            pattern_presence: ShardBits::new(),
        };
        assert(r@.stripes =~= nobody().stripes);
        r
    }

    /// The stripe of a channel.
    pub fn stripe_for(channel: &[u8]) -> (r: usize)
        ensures
            r == stripe_of(channel@),
            r < PUBSUB_STRIPES,
    {
        (hash_key(channel) as usize) % PUBSUB_STRIPES
    }

    /// Marks a shard for the stripe of a channel.
    pub fn add_subscriber(&mut self, shard_id: usize, channel: &[u8])
        ensures
            final(self)@ == old(self)@.joined(shard_id as nat, channel@),
    {
        let stripe: usize = Self::stripe_for(channel);
        self.channel_stripes[stripe].insert(shard_id);
        assert(self@.stripes =~= old(self)@.joined(shard_id as nat, channel@).stripes);
    }

    /// Clears the mark of a shard for the stripe of a channel.
    pub fn remove_subscriber(&mut self, shard_id: usize, channel: &[u8])
        ensures
            final(self)@ == old(self)@.left(shard_id as nat, channel@),
    {
        let stripe: usize = Self::stripe_for(channel);
        self.channel_stripes[stripe].remove(shard_id);
        assert(self@.stripes =~= old(self)@.left(shard_id as nat, channel@).stripes);
    }

    /// Marks a shard for every channel, on behalf of its patterns.
    pub fn add_pattern_subscriber(&mut self, shard_id: usize)
        ensures
            final(self)@ == (Presence {
                patterns: old(self)@.patterns.insert(shard_id as nat),
                ..old(self)@
            }),
    {
        self.pattern_presence.insert(shard_id);
        assert(self@.stripes =~= old(self)@.stripes);
    }

    /// Clears the mark of a shard's patterns.
    pub fn remove_pattern_subscriber(&mut self, shard_id: usize)
        ensures
            final(self)@ == (Presence {
                patterns: old(self)@.patterns.remove(shard_id as nat),
                ..old(self)@
            }),
    {
        self.pattern_presence.remove(shard_id);
        assert(self@.stripes =~= old(self)@.stripes);
    }

    /// The shards below 64 that a message for `channel` concerns, one bit each.
    pub fn interested_shards(&self, channel: &[u8]) -> (r: u64)
        ensures
            forall|i: u64| i < 64 ==> bit(r, i) == self@.interested(i as nat, channel@),
    {
        let stripe: usize = Self::stripe_for(channel);
        let x: u64 = self.channel_stripes[stripe].first_word();
        let y: u64 = self.pattern_presence.first_word();
        assert forall|i: u64| i < 64 implies bit(x | y, i) == self@.interested(
            i as nat,
            channel@,
        ) by {
            lemma_bits(x, y, 0, i);
        }
        x | y
    }

    /// Whether a message for `channel` concerns a shard, whatever its number.
    pub fn is_shard_interested(&self, shard_id: usize, channel: &[u8]) -> (r: bool)
        ensures
            r == self@.interested(shard_id as nat, channel@),
    {
        let stripe: usize = Self::stripe_for(channel);
        self.channel_stripes[stripe].contains(shard_id) || self.pattern_presence.contains(shard_id)
    }
}

} // verus!
