//! A participant: identity and score.
//!
//! The claw geometry a participant steers is per-frame float arithmetic
//! and lives outside this crate; what the protocol replicates about a
//! participant — who they are and what they scored — lives here.

use vstd::prelude::*;

verus! {

/// One of the two participants.  `id` is always 1 or 2 in a well-formed
/// match and picks which side a `PLAY` snapshot updates.
#[derive(Clone, Copy, PartialEq, Eq, Structural, Debug)]
pub struct Player {
    pub id: usize,
    pub score: usize,
}

impl Player {
    /// A fresh participant starts with no score.
    pub fn new(id: usize) -> (p: Player)
        ensures
            p == (Player { id, score: 0 }),
    {
        Player { id, score: 0 }
    }

    /// One collected snack: the score grows by exactly one.
    pub fn increase_score(&mut self)
        requires
            old(self).score < usize::MAX,
        ensures
            *final(self) == (Player { id: old(self).id, score: (old(self).score + 1) as usize }),
    {
        self.score = self.score + 1;
    }
}

} // verus!
