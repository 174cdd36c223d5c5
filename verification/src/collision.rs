//! Advisory collision detector: warns when an observation pattern is prone
//! to matching more than one seed. It never blocks or alters a search.

use vstd::prelude::*;

use crate::model::{RarityTier, SlotObservation};

verus! {

/// Two adjacent concrete Rare observations whose slots are consecutive
/// modulo the Rare roster size: such a pair is also produced by many other
/// seeds, so a match on it is likely not unique.
pub open spec fn ambiguous_pair(a: SlotObservation, b: SlotObservation, total_rares: u32) -> bool {
    &&& a.tier is Rare
    &&& b.tier is Rare
    &&& a.slot matches Some(x) && b.slot matches Some(y)
        && y as int == (x + 1) % (total_rares as int)
}

/// Some adjacent pair of observations is ambiguous.
pub open spec fn spec_collisions(obs: Seq<SlotObservation>, total_rares: u32) -> bool {
    exists|i: int| 0 <= i && i + 1 < obs.len()
        && #[trigger] ambiguous_pair(obs[i], obs[i + 1], total_rares)
}

/// Scan adjacent observation pairs and report whether any is a pair of
/// concrete Rare draws with consecutive slots modulo the Rare roster size.
/// Advisory only: a `true` verdict warns that the search may return more
/// than one seed.
pub fn is_collisions(cats: &Vec<SlotObservation>, total_rares: u32) -> (r: bool)
    requires
        total_rares >= 1,
        cats@.len() >= 1,
    ensures
        r == spec_collisions(cats@, total_rares),
{
    let n = cats.len();
    let mut i: usize = 0;
    while i < n - 1
        invariant
            0 <= i,
            n == cats@.len(),
            cats@.len() >= 1,
            total_rares >= 1,
            i + 1 <= cats@.len(),
            forall|j: int| 0 <= j && j + 1 < cats@.len() && j < i
                ==> !(#[trigger] ambiguous_pair(cats@[j], cats@[j + 1], total_rares)),
        decreases cats@.len() - i,
    {
        let a = cats[i];
        let b = cats[i + 1];
        let pair_rare = match (a.tier, b.tier) {
            (RarityTier::Rare, RarityTier::Rare) => true,
            _ => false,
        };
        if pair_rare {
            match (a.slot, b.slot) {
                (Some(x), Some(y)) => {
                    let next = ((x as u64 + 1) % (total_rares as u64)) as u32;
                    if y == next {
                        assert(ambiguous_pair(cats@[i as int], cats@[i + 1], total_rares));
                        return true;
                    }
                },
                _ => {},
            }
        }
        i += 1;
    }
    false
}

} // verus!
