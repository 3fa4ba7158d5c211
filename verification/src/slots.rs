//! Which shard a key belongs to.
use vstd::prelude::*;

use crate::hashing::{hash_key, key_hash};
use crate::readings::{find_byte, first_place, lemma_first_place};

verus! {

/// How many slots the keys are spread over.
pub const SLOT_COUNT: u16 = 16384;

/// What of a key decides where it belongs: what stands between the first opening brace and the next
/// closing one, if there is anything, and the whole key otherwise.
pub open spec fn hash_tag(key: Seq<u8>) -> Seq<u8> {
    let open = first_place(key, 123);
    let close = first_place(key.skip(open + 1), 125);
    if open < key.len() && open + 1 + close < key.len() && close > 0 {
        key.subrange(open + 1, open + 1 + close)
    } else {
        key
    }
}

/// The hash tag of a key, or the key itself.
pub fn extract_hash_tag(key: &[u8]) -> (r: &[u8])
    ensures
        r@ == hash_tag(key@),
{
    let open: usize = find_byte(key, 123);
    if open < key.len() {
        let behind: &[u8] = vstd::slice::slice_subrange(key, open + 1, key.len());
        assert(behind@ =~= key@.skip(open + 1));
        let close: usize = find_byte(behind, 125);
        if close < behind.len() && close > 0 {
            let tag: &[u8] = vstd::slice::slice_subrange(behind, 0, close);
            assert(tag@ =~= key@.subrange(open + 1, open + 1 + close));
            return tag;
        }
    }
    key
}

/// A remainder by the polynomial `x^16 + x^12 + x^5 + 1`, after `n` more bits of nought.
pub open spec fn crc16_shifted(crc: u16, n: nat) -> u16
    decreases n,
{
    if n == 0 {
        crc
    } else if crc & 0x8000 != 0 {
        crc16_shifted((crc << 1) ^ 0x1021, (n - 1) as nat)
    } else {
        crc16_shifted(crc << 1, (n - 1) as nat)
    }
}

/// The checksum CRC-16/XMODEM: it starts from nought, and takes the bits of each byte from the
/// highest on.
pub open spec fn crc16_xmodem(data: Seq<u8>) -> u16
    decreases data.len(),
{
    if data.len() == 0 {
        0
    } else {
        crc16_shifted(crc16_xmodem(data.drop_last()) ^ ((data.last() as u16) << 8), 8)
    }
}

/// `crc16::State::<XMODEM>::calculate`: the checksum of the data, by the polynomial 0x1021 from the
/// start value nought, with no reflection and nothing added at the end.
#[verifier::external_body]
fn checksum(data: &[u8]) -> (r: u16)
    ensures
        r == crc16_xmodem(data@),
{
    crc16::State::<crc16::XMODEM>::calculate(data)
}

/// The slot of a key.
pub open spec fn slot_of(key: Seq<u8>) -> u16 {
    (crc16_xmodem(hash_tag(key)) % SLOT_COUNT) as u16
}

/// The slot of a key whose tag has a checksum.
pub fn slot_of_checksum(crc: u16) -> (r: u16)
    ensures
        r == crc % SLOT_COUNT,
        r < SLOT_COUNT,
{
    crc % SLOT_COUNT
}

/// The slot of a key.
pub fn key_slot(key: &[u8]) -> (r: u16)
    ensures
        r == slot_of(key@),
        r < SLOT_COUNT,
{
    slot_of_checksum(checksum(extract_hash_tag(key)))
}

/// The shard that owns a slot, when the slots are spread evenly.
pub open spec fn even_shard(slot: u16, num_shards: nat) -> nat {
    if num_shards <= 1 {
        0
    } else {
        slot as nat * num_shards / 16384
    }
}

/// The shard that owns a slot, when the slots are spread evenly.
pub fn slot_to_shard(slot: u16, num_shards: usize) -> (r: usize)
    requires
        slot * num_shards <= usize::MAX,
    ensures
        r == even_shard(slot, num_shards as nat),
{
    if num_shards <= 1 {
        0
    } else {
        ((slot as usize) * num_shards) / 16384
    }
}

/// The shard that a key belongs to: by its slot in a cluster, by the hash of its tag otherwise.
pub open spec fn shard_of(key: Seq<u8>, num_shards: nat, clustered: bool) -> nat {
    if num_shards <= 1 {
        0
    } else if clustered {
        even_shard(slot_of(key), num_shards)
    } else {
        (key_hash(hash_tag(key)) as usize) as nat % num_shards
    }
}

/// Slots are few enough for their products with the number of shards.
proof fn lemma_slot_product(slot: u16, num_shards: usize)
    requires
        slot < SLOT_COUNT,
        16383 * num_shards <= usize::MAX,
    ensures
        slot * num_shards <= usize::MAX,
{
    assert(slot * num_shards <= 16383 * num_shards) by (nonlinear_arith)
        requires
            slot <= 16383,
    ;
}

/// The shard that a key belongs to.
pub fn target_shard(key: &[u8], num_shards: usize, clustered: bool) -> (r: usize)
    requires
        clustered ==> 16383 * num_shards <= usize::MAX,
    ensures
        r == shard_of(key@, num_shards as nat, clustered),
{
    if num_shards <= 1 {
        0
    } else if clustered {
        let slot: u16 = key_slot(key);
        proof {
            lemma_slot_product(slot, num_shards);
        }
        slot_to_shard(slot, num_shards)
    } else {
        (hash_key(extract_hash_tag(key)) as usize) % num_shards
    }
}

/// The shard that a key belongs to, and the hash of the key.
pub fn target_shard_and_hash(key: &[u8], num_shards: usize, clustered: bool) -> (r: (usize, u64))
    requires
        clustered ==> 16383 * num_shards <= usize::MAX,
    ensures
        r.0 == shard_of(key@, num_shards as nat, clustered),
        r.1 == key_hash(key@),
{
    let hash: u64 = hash_key(key);
    if num_shards <= 1 {
        (0, hash)
    } else if clustered {
        let slot: u16 = key_slot(key);
        proof {
            lemma_slot_product(slot, num_shards);
        }
        (slot_to_shard(slot, num_shards), hash)
    } else {
        let tag: &[u8] = extract_hash_tag(key);
        let shard_hash: u64 = if tag.len() == key.len() {
            proof {
                lemma_whole_tag(key@);
            }
            hash
        } else {
            hash_key(tag)
        };
        ((shard_hash as usize) % num_shards, hash)
    }
}

/// A tag as long as its key is the key.
proof fn lemma_whole_tag(key: Seq<u8>)
    ensures
        hash_tag(key).len() == key.len() ==> hash_tag(key) == key,
{
    lemma_first_place(key, 123);
    lemma_first_place(key.skip(first_place(key, 123) + 1), 125);
}

/// A key's shard is the same whether or not the hash of the key is asked for with it, and the hash
/// is that of the whole key.
pub proof fn law_hash_beside_shard(
    key: &[u8],
    num_shards: usize,
    clustered: bool,
    shard: usize,
    both: (usize, u64),
)
    requires
        clustered ==> 16383 * num_shards <= usize::MAX,
        call_ensures(target_shard, (key, num_shards, clustered), shard),
        call_ensures(target_shard_and_hash, (key, num_shards, clustered), both),
    ensures
        both == (shard, key_hash(key@)),
{
}

/// Keys with the same tag belong together: they have one slot, and one shard, in a cluster or not.
pub proof fn law_tag_decides(a: Seq<u8>, b: Seq<u8>, num_shards: nat, clustered: bool)
    requires
        hash_tag(a) == hash_tag(b),
    ensures
        slot_of(a) == slot_of(b),
        shard_of(a, num_shards, clustered) == shard_of(b, num_shards, clustered),
{
}

/// The tag of a key is what stands in its first pair of braces, whatever surrounds it.
pub proof fn law_tag_in_braces(before: Seq<u8>, tag: Seq<u8>, after: Seq<u8>)
    requires
        !before.contains(123),
        !tag.contains(125),
        tag.len() > 0,
    ensures
        hash_tag(before + seq![123u8] + tag + seq![125u8] + after) == tag,
{
    let key = before + seq![123u8] + tag + seq![125u8] + after;
    let open = before.len() as int;
    lemma_first_place(key, 123);
    let p = first_place(key, 123);
    assert(key[open] == 123);
    assert(p == open) by {
        if p < open {
            assert(key[p] == before[p]);
            assert(before.contains(before[p]));
        }
    }
    let behind = key.skip(open + 1);
    lemma_first_place(behind, 125);
    let c = first_place(behind, 125);
    assert(behind[tag.len() as int] == 125);
    assert(c == tag.len()) by {
        if c < tag.len() {
            assert(behind[c] == tag[c]);
            assert(tag.contains(tag[c]));
        }
    }
    assert(key.subrange(open + 1, open + 1 + c) =~= tag);
}

/// Whether a key has something between its first opening brace and a closing one behind it.
pub open spec fn has_tag(key: Seq<u8>) -> bool {
    exists|open: int, close: int|
        #![trigger key[open], key[close]]
        0 <= open && open + 1 < close < key.len() && key[open] == 123 && key[close] == 125 && (
        forall|i: int| 0 <= i < open ==> key[i] != 123) && key[open + 1] != 125
}

/// A key without a tag is hashed whole: where it has no opening brace, or no closing brace behind
/// the first opening one, or nothing between the two, its slot is that of its own checksum and its
/// shard that of its own hash. A key with a tag goes where the tag alone goes.
pub proof fn law_whole_key_without_tag(key: Seq<u8>, num_shards: nat)
    ensures
        !has_tag(key) ==> hash_tag(key) == key,
        !key.contains(123) ==> hash_tag(key) == key,
        !key.contains(125) ==> hash_tag(key) == key,
        hash_tag(key) == key ==> slot_of(key) == crc16_xmodem(key) % 16384,
        hash_tag(key) == key && num_shards > 1 ==> shard_of(key, num_shards, false) == key_hash(
            key,
        ) as usize as nat % num_shards,
        slot_of(key) < 16384,
{
    lemma_first_place(key, 123);
    let open = first_place(key, 123);
    let behind = key.skip(open + 1);
    lemma_first_place(behind, 125);
    let close = first_place(behind, 125);
    if hash_tag(key) != key {
        assert(key[open] == 123);
        assert(behind[close] == key[open + 1 + close]);
        assert(behind[0] == key[open + 1]);
        assert(key[open + 1 + close] == 125);
        assert(key.contains(123) && key.contains(125));
        assert(has_tag(key));
    }
}

/// No braces that are empty make a tag, nor an opening one that is never closed.
pub proof fn law_braces_without_tag(before: Seq<u8>, after: Seq<u8>)
    requires
        !before.contains(123),
    ensures
        hash_tag(before + seq![123u8, 125u8] + after) == before + seq![123u8, 125u8] + after,
        !after.contains(125) ==> hash_tag(before + seq![123u8] + after) == before + seq![123u8]
            + after,
{
    let empty = before + seq![123u8, 125u8] + after;
    let open = before + seq![123u8] + after;
    lemma_brace(before, seq![125u8] + after);
    assert(before + seq![123u8] + (seq![125u8] + after) =~= empty);
    lemma_brace(before, after);
    let n = before.len() as int;
    assert(empty.skip(n + 1) =~= seq![125u8] + after);
    lemma_first_place(seq![125u8] + after, 125);
    assert((seq![125u8] + after)[0] == 125);
    assert(open.skip(n + 1) =~= after);
    lemma_first_place(after, 125);
}

/// The first brace stands behind what has none.
proof fn lemma_brace(before: Seq<u8>, after: Seq<u8>)
    requires
        !before.contains(123),
    ensures
        first_place(before + seq![123u8] + after, 123) == before.len(),
{
    let key = before + seq![123u8] + after;
    lemma_first_place(key, 123);
    let p = first_place(key, 123);
    assert(key[before.len() as int] == 123);
    if p < before.len() {
        assert(key[p] == before[p]);
        assert(before.contains(before[p]));
    }
}

/// A key with a tag has the slot and the shard of its tag.
pub proof fn law_tag_alone_decides(
    before: Seq<u8>,
    tag: Seq<u8>,
    after: Seq<u8>,
    num_shards: nat,
    clustered: bool,
)
    requires
        !before.contains(123),
        !tag.contains(125),
        tag.len() > 0,
    ensures
        ({
            let key = before + seq![123u8] + tag + seq![125u8] + after;
            &&& slot_of(key) == crc16_xmodem(tag) % 16384
            &&& slot_of(key) == slot_of(tag)
            &&& shard_of(key, num_shards, clustered) == shard_of(tag, num_shards, clustered)
        }),
{
    law_tag_in_braces(before, tag, after);
    law_whole_key_without_tag(tag, num_shards);
}

/// The shard that owns a slot is the one in whose even share of the slots it falls, and there is only
/// one such; without a cluster a key's shard is the rest of its tag's hash by the number of shards.
pub proof fn law_shards_share_evenly(slot: u16, key: Seq<u8>, num_shards: nat, shard: nat)
    requires
        num_shards > 0,
        slot < 16384,
    ensures
        even_shard(slot, num_shards) == shard <==> shard * 16384 <= slot * num_shards < (shard + 1)
            * 16384,
        num_shards == 1 ==> even_shard(slot, num_shards) == 0 && shard_of(key, num_shards, true)
            == 0 && shard_of(key, num_shards, false) == 0,
        shard_of(key, num_shards, true) == even_shard(slot_of(key), num_shards),
        shard_of(key, num_shards, false) == key_hash(hash_tag(key)) as usize as nat % num_shards,
{
    let x = slot * num_shards;
    if num_shards == 1 {
        assert(x == slot) by (nonlinear_arith)
            requires
                x == slot * num_shards,
                num_shards == 1,
        ;
        assert(shard * 16384 <= slot < (shard + 1) * 16384 <==> shard == 0);
    }
}

/// An even spread gives every slot a shard, later slots no earlier ones, and where there are no more
/// shards than slots it leaves no shard out.
pub proof fn law_even_spread(slot: u16, later: u16, shard: nat, num_shards: nat)
    requires
        slot <= later < SLOT_COUNT,
        shard < num_shards,
        num_shards <= 16384,
    ensures
        even_shard(slot, num_shards) < num_shards,
        even_shard(slot, num_shards) <= even_shard(later, num_shards),
        exists|s: u16| s < SLOT_COUNT && #[trigger] even_shard(s, num_shards) == shard,
{
    let n = num_shards as int;
    assert(slot * n < 16384 * n) by (nonlinear_arith)
        requires
            slot < 16384,
            n > 0,
    ;
    assert(slot * n <= later * n) by (nonlinear_arith)
        requires
            slot <= later,
            n > 0,
    ;
    if n > 1 {
        let k = shard as int;
        // The first slot of the shard.
        let s = (k * 16384 + n - 1) / n;
        assert(0 <= k * 16384 <= (n - 1) * 16384) by (nonlinear_arith)
            requires
                0 <= k <= n - 1,
        ;
        assert(s * n >= k * 16384 && s * n < k * 16384 + n && 0 <= s) by (nonlinear_arith)
            requires
                s == (k * 16384 + n - 1) / n,
                n > 1,
                k >= 0,
        ;
        assert(s < 16384) by (nonlinear_arith)
            requires
                s * n < k * 16384 + n,
                k <= n - 1,
                1 < n <= 16384,
        ;
        assert(s * n / 16384 == k) by (nonlinear_arith)
            requires
                s * n >= k * 16384,
                s * n < k * 16384 + n,
                n <= 16384,
        ;
        assert(even_shard(s as u16, num_shards) == shard);
    } else {
        assert(even_shard(0, num_shards) == shard);
    }
}

} // verus!
