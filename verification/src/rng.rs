//! The deterministic pseudo-random source of the kernel: a ChaCha8
//! generator behind trusted wrappers. A generator is modelled as a
//! position in the word stream determined by its seed; the stream itself
//! is named by `chacha8_word`.

use rand::{RngCore, SeedableRng};
use rand_chacha::ChaCha8Rng;
use vstd::prelude::*;

verus! {

#[verifier::external_type_specification]
#[verifier::external_body]
pub struct ExChaCha8Rng(rand_chacha::ChaCha8Rng);

/// Word `k` of the ChaCha8 stream obtained by seeding with `seed`: the
/// value of the `k`-th `next_u64` call on a generator built by
/// `seed_from_u64(seed)`. A pure function of `(seed, k)`.
pub uninterp spec fn chacha8_word(seed: u64, k: int) -> u64;

/// The seed a generator was built from.
pub uninterp spec fn rng_seed_of(r: rand_chacha::ChaCha8Rng) -> u64;

/// How many words have been drawn from a generator since it was built.
pub uninterp spec fn rng_drawn(r: rand_chacha::ChaCha8Rng) -> int;

/// Relies on rand_chacha::ChaCha8Rng::seed_from_u64 (rand_core's
/// SeedableRng): the generator is a pure function of the seed, with no
/// words drawn yet.
#[verifier::external_body]
pub(crate) fn chacha8_from_seed(seed: u64) -> (r: ChaCha8Rng)
    ensures
        rng_seed_of(r) == seed,
        rng_drawn(r) == 0,
{
    ChaCha8Rng::seed_from_u64(seed)
}

/// Relies on rand_core::RngCore::next_u64 for ChaCha8Rng: the next word
/// of the seed-determined stream, advancing the position by one.
#[verifier::external_body]
pub(crate) fn chacha8_next(rng: &mut ChaCha8Rng) -> (r: u64)
    ensures
        rng_seed_of(*final(rng)) == rng_seed_of(*old(rng)),
        rng_drawn(*final(rng)) == rng_drawn(*old(rng)) + 1,
        r == chacha8_word(rng_seed_of(*old(rng)), rng_drawn(*old(rng))),
{
    rng.next_u64()
}

/// The seed of the per-node generator handed to a cell: the cycle's
/// `rng_state` word XORed with a node-distinct salt — the bucket in the
/// high half and the index in the low half, so that no two nodes (with
/// buckets and indices below 2^32) share a stream within a cycle.
pub open spec fn spec_node_seed(rng_state: u64, ntype: u64, index: u64) -> u64 {
    ((ntype << 32) ^ index) ^ rng_state
}

/// A generator for one node and one cycle, reproducible from the cycle's
/// `rng_state` word and the node's identity alone.
pub fn node_rng(rng_state: u64, id: crate::ports::NodeId) -> (r: ChaCha8Rng)
    ensures
        rng_seed_of(r) == spec_node_seed(rng_state, id.ntype as u64, id.index as u64),
        rng_drawn(r) == 0,
{
    let salt: u64 = ((id.ntype as u64) << 32) ^ (id.index as u64);
    let seed: u64 = salt ^ rng_state;
    chacha8_from_seed(seed)
}

} // verus!
