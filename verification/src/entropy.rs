//! Keccak-256 digests, the entropy seed of a draft, and the pool index drawn
//! from a seed at each iteration.

use crate::identity::Pubkey;
use crate::state::Clock;
use vstd::bytes::{spec_u64_from_le_bytes, spec_u64_to_le_bytes, u64_from_le_bytes, u64_to_le_bytes};
use vstd::prelude::*;
use vstd::slice::slice_subrange;

verus! {

/// The reference price mixed into every seed, in millionths of a dollar.
pub const REFERENCE_PRICE: u64 = 1_000_000;

/// The Keccak-256 digest of `data`.
pub uninterp spec fn keccak256(data: Seq<u8>) -> Seq<u8>;

/// Calls `anchor_lang::solana_program::keccak::hash` on `data` and hands back the
/// 32 bytes of the `Hash` it returns. The contract claims only that this is the
/// Keccak-256 digest of `data`, a function of the bytes alone.
#[verifier::external_body]
pub(crate) fn keccak_hash(data: &Vec<u8>) -> (digest: [u8; 32])
    ensures
        digest@ == keccak256(data@),
{
    anchor_lang::solana_program::keccak::hash(data.as_slice()).0
}

/// The bytes that are hashed into a seed: the slot, the timestamp, the buyer's
/// key and the reference price, the three numbers as 8 little-endian bytes each
/// (the timestamp in two's complement).
pub open spec fn entropy_preimage(buyer: Pubkey, slot: u64, unix_timestamp: i64) -> Seq<u8> {
    spec_u64_to_le_bytes(slot) + spec_u64_to_le_bytes(unix_timestamp as u64) + buyer.bytes@
        + spec_u64_to_le_bytes(REFERENCE_PRICE)
}

/// The seed of a draft: the digest of the buyer, the clock reading and the
/// reference price.
pub open spec fn entropy_seed(buyer: Pubkey, clock: Clock) -> Seq<u8> {
    keccak256(entropy_preimage(buyer, clock.slot, clock.unix_timestamp))
}

/// The pool index that a digest stands for: its first 8 bytes, read as a
/// little-endian number, modulo the size of the pool.
pub open spec fn digest_index(digest: Seq<u8>, pool_len: nat) -> int {
    spec_u64_from_le_bytes(digest.subrange(0, 8)) as int % pool_len as int
}

/// The pool index drawn from `seed` at `iteration`: the seed followed by the
/// iteration byte is hashed, and the digest reduced to an index.
pub open spec fn draw_index(seed: Seq<u8>, iteration: u8, pool_len: nat) -> int {
    digest_index(keccak256(seed.push(iteration)), pool_len)
}

/// Appends the bytes of `source` to `data`.
fn extend_with(data: &mut Vec<u8>, source: &[u8])
    ensures
        final(data)@ == old(data)@ + source@,
{
    let mut i: usize = 0;
    while i < source.len()
        invariant
            i <= source.len(),
            data@ == old(data)@ + source@.subrange(0, i as int),
        decreases source.len() - i,
    {
        data.push(source[i]);
        i += 1;
    }
    assert(source@.subrange(0, source.len() as int) == source@);
}

/// The seed of a draft for `buyer` at the clock reading `clock`.
pub fn generate_entropy(buyer: &Pubkey, clock: &Clock) -> (seed: [u8; 32])
    ensures
        seed@ == entropy_seed(*buyer, *clock),
{
    let mut data: Vec<u8> = Vec::new();
    let slot_bytes = u64_to_le_bytes(clock.slot);
    extend_with(&mut data, slot_bytes.as_slice());
    let timestamp_bytes = u64_to_le_bytes(#[verifier::truncate] (clock.unix_timestamp as u64));
    extend_with(&mut data, timestamp_bytes.as_slice());
    extend_with(&mut data, buyer.bytes.as_slice());
    let price_bytes = u64_to_le_bytes(REFERENCE_PRICE);
    extend_with(&mut data, price_bytes.as_slice());
    keccak_hash(&data)
}

/// The pool index that `digest` stands for in a pool of `pool_len` entries.
pub fn index_from_digest(digest: &[u8; 32], pool_len: usize) -> (index: usize)
    requires
        pool_len > 0,
    ensures
        index == digest_index(digest@, pool_len as nat),
        index < pool_len,
{
    let random_value = u64_from_le_bytes(slice_subrange(digest.as_slice(), 0, 8));
    (random_value % (pool_len as u64)) as usize
}

/// The pool index drawn from `entropy` at `iteration`, in a pool of `pool_len`
/// entries.
pub fn draw(entropy: &[u8; 32], iteration: u8, pool_len: usize) -> (index: usize)
    requires
        pool_len > 0,
    ensures
        index == draw_index(entropy@, iteration, pool_len as nat),
        index < pool_len,
{
    let mut hash_input: Vec<u8> = Vec::new();
    extend_with(&mut hash_input, entropy.as_slice());
    hash_input.push(iteration);
    let digest = keccak_hash(&hash_input);
    index_from_digest(&digest, pool_len)
}

} // verus!
