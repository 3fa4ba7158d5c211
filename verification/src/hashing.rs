//! The hash that spreads keys over shards and channels over stripes.
use vstd::prelude::*;

verus! {

/// One step of the hash: takes in a byte.
pub open spec fn hash_step(h: u64, b: u8) -> u64 {
    (h ^ (b as u64)).wrapping_mul(0x100000001b3)
}

/// The hash of a key.
pub open spec fn key_hash(key: Seq<u8>) -> u64
    decreases key.len(),
{
    if key.len() == 0 {
        0xcbf29ce484222325
    } else {
        hash_step(key_hash(key.drop_last()), key.last())
    }
}

/// The hash of a key.
pub fn hash_key(key: &[u8]) -> (r: u64)
    ensures
        r == key_hash(key@),
{
    let mut h: u64 = 0xcbf29ce484222325;
    let mut i: usize = 0;
    assert(key@.take(0).len() == 0);
    while i < key.len()
        invariant
            i <= key.len(),
            h == key_hash(key@.take(i as int)),
        decreases key.len() - i,
    {
        proof {
            let next = key@.take(i + 1);
            assert(next.drop_last() == key@.take(i as int));
            assert(next.last() == key@[i as int]);
        }
        h = (h ^ (key[i] as u64)).wrapping_mul(0x100000001b3);
        i += 1;
    }
    assert(key@.take(i as int) == key@);
    h
}

/// The hash that the `fxhash` crate gives a key, on a machine that reads words with their low byte
/// first or on one that reads them with their high byte first.
pub uninterp spec fn fx_hashed(bytes: Seq<u8>, low_first: bool) -> u64;

/// `fxhash::hash64` of a slice, which is a function of its bytes and of the byte order of the
/// machine. Longer slices are taken in words, in that order; fewer than four bytes are taken in one
/// by one, so that their hash is the same everywhere. Which order it is is left unsaid.
#[verifier::external_body]
pub(crate) fn fx_hash(bytes: &[u8]) -> (r: u64)
    ensures
        r == fx_hashed(bytes@, true) || r == fx_hashed(bytes@, false),
        bytes@.len() < 4 ==> r == fx_hashed(bytes@, true),
{
    fxhash::hash64(bytes)
}

/// The hash of nothing is the offset basis of FNV-1a, and a byte more is mixed in by that hash's prime.
pub proof fn law_hash_goes_byte_by_byte(key: Seq<u8>, b: u8)
    ensures
        key_hash(Seq::empty()) == 14695981039346656037u64,
        key_hash(key.push(b)) == (key_hash(key) ^ (b as u64)).wrapping_mul(1099511628211u64),
{
    assert(key.push(b).drop_last() =~= key);
}

} // verus!
