//! The ring of recent output samples that the oscilloscope draws.
//!
//! Each new sample overwrites the oldest one; the write position wraps around
//! to the start after the last slot.

use vstd::prelude::*;
use crate::voices::{
    after_turns, lemma_slot_after_is_modulo, lemma_turns_keep_latest, next_slot, slot_after,
};

verus! {

/// Writes `value` at `index` in `samples` and returns the position of the next
/// write: the following slot, or the first one after the last.
pub fn store_sample<T>(samples: &mut Vec<T>, index: usize, value: T) -> (next: usize)
    requires
        index < old(samples)@.len(),
    ensures
        final(samples)@ == old(samples)@.update(index as int, value),
        next as int == next_slot(index as int, old(samples)@.len() as int),
        next as int == (index + 1) % (old(samples)@.len() as int),
        next < final(samples)@.len(),
{
    let count = samples.len();
    samples.set(index, value);
    let next = index + 1;
    proof {
        lemma_slot_after_is_modulo(index as int, count as int, 1);
        assert(slot_after(index as int, count as int, 0) == index);
        assert(slot_after(index as int, count as int, 1) == next_slot(index as int, count as int));
    }
    if next >= count {
        0
    } else {
        next
    }
}


/// The sample ring after any number of stores from `index`, the `m`-th of
/// `values` stored at the position reached after `m` stores: each slot holds
/// the last sample stored in it (the last `ring.len()` samples all stand at
/// their slots, the oldest at the next write position), a slot not yet
/// reached keeps its sample, and the next write position is `index` plus the
/// number of stores, modulo the length of the ring.
pub proof fn lemma_ring_holds_latest<T>(ring: Seq<T>, index: int, values: Seq<T>)
    requires
        0 <= index < ring.len(),
    ensures
        after_turns(ring, index, values).len() == ring.len(),
        slot_after(index, ring.len() as int, values.len()) == (index + values.len()) % (
        ring.len() as int),
        forall|j: int|
            0 <= j < values.len() && values.len() <= j + ring.len() ==> #[trigger] after_turns(
                ring,
                index,
                values,
            )[slot_after(index, ring.len() as int, j as nat)] == values[j],
        forall|p: int|
            0 <= p < ring.len() && (forall|j: int|
                0 <= j < values.len() ==> #[trigger] slot_after(index, ring.len() as int, j as nat)
                    != p) ==> #[trigger] after_turns(ring, index, values)[p] == ring[p],
{
    lemma_turns_keep_latest(ring, index, values);
    lemma_slot_after_is_modulo(index, ring.len() as int, values.len());
}

} // verus!
