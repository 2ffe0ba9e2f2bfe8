//! The collectibles ("snacks") as the protocol sees them.
//!
//! Positions and velocities are per-frame float motion and live outside
//! this crate; the protocol's concern is the fixed collection itself: each
//! snack's stable index and whether it is active on screen.

use vstd::prelude::*;

verus! {

/// One collectible.  `id` is its stable index into the fixed local
/// collection; it never changes over the snack's lifetime.
#[derive(Clone, Copy, PartialEq, Eq, Structural, Debug)]
pub struct Snack {
    pub id: usize,
    pub active: bool,
}

impl Snack {
    /// An authoritative respawn from the remote peer reactivates the
    /// snack; the accompanying position and velocity are applied by the
    /// simulation.
    pub fn reset(&mut self)
        ensures
            *final(self) == (Snack { id: old(self).id, active: true }),
    {
        self.active = true;
    }
}

/// A freshly spawned collection: snack `i` has id `i` and is active.
pub open spec fn snacks_fresh(sn: Seq<Snack>) -> bool {
    forall|i: int| 0 <= i < sn.len() ==> sn[i] == (Snack { id: i as usize, active: true })
}

/// Builds the fixed collection of `num` active snacks, ids `0..num`.
pub fn spawn_snacks(num: usize) -> (v: Vec<Snack>)
    ensures
        v@.len() == num,
        snacks_fresh(v@),
{
    let mut v: Vec<Snack> = Vec::new();
    let mut i: usize = 0;
    while i < num
        invariant
            i <= num,
            v@.len() == i,
            forall|j: int| 0 <= j < i ==> v@[j] == (Snack { id: j as usize, active: true }),
        decreases num - i,
    {
        v.push(Snack { id: i, active: true });
        i += 1;
    }
    v
}

} // verus!
