//! What is left to chance. A draw can only be had here, by asking the generator: a contract that
//! speaks of a draw speaks of one that was made.
use crate::timing;
use vstd::prelude::*;

verus! {

/// A number that was drawn at random from zero to a limit.
pub struct Draw {
    limit: u64,
    amount: u64,
}

impl Draw {
    /// The limit up to which it was drawn.
    pub closed spec fn limit(self) -> u64 {
        self.limit
    }

    /// The number that came out.
    pub closed spec fn number(self) -> u64 {
        self.amount
    }

    /// Draws a number up to this limit. Which one is left to chance.
    pub fn up_to(limit: u64) -> (r: Draw)
        ensures
            r.limit() == limit,
            r.number() <= limit,
    {
        Draw { limit, amount: timing::random_at_most(limit) }
    }

    /// The number that came out.
    pub fn amount(&self) -> (r: u64)
        ensures
            r == self.number(),
    {
        self.amount
    }
}

} // verus!
