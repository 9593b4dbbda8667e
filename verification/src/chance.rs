use vstd::prelude::*;
use rand::Rng;
use rand::rngs::SmallRng;
use crate::grid::{Grid, CELL_LIFETIME, COLS, ROWS};

verus! {

#[verifier::external_type_specification]
#[verifier::external_body]
pub struct ExSmallRng(SmallRng);

/// Chance, as `ALIVE_NUMERATOR` in `ALIVE_DENOMINATOR`, that a cell of a random board is alive.
pub const ALIVE_NUMERATOR: u32 = 33;

pub const ALIVE_DENOMINATOR: u32 = 100;

/// Calls `rand::Rng::random_ratio`, which returns `true` with probability
/// `numerator / denominator`. Its source makes a ratio of 0 always `false` and a
/// ratio of 1 always `true`; that is all this contract claims. It panics when
/// `denominator` is 0 or `numerator > denominator`, which `requires` rules out.
#[verifier::external_body]
fn random_ratio(rng: &mut SmallRng, numerator: u32, denominator: u32) -> (b: bool)
    requires
        0 < denominator,
        numerator <= denominator,
    ensures
        numerator == 0 ==> !b,
        numerator == denominator ==> b,
{
    rng.random_ratio(numerator, denominator)
}

impl<E> Grid<E> {
    /// Makes every cell, row after row, alive with a chance of 33 in 100 and dead,
    /// with no decay left, otherwise.
    pub fn randomize(&mut self, rng: &mut SmallRng)
        requires
            old(self).wf(),
        ensures
            final(self).wf(),
            forall|i: int|
                0 <= i < ROWS * COLS ==> #[trigger] final(self).board()[i] == CELL_LIFETIME
                    || final(self).board()[i] == 0,
            final(self).entities() == old(self).entities(),
            final(self).living() == old(self).living(),
    {
        let mut draws: Vec<bool> = Vec::new();
        let mut i: usize = 0;
        while i < ROWS * COLS
            invariant
                i <= ROWS * COLS,
                draws@.len() == i,
            decreases ROWS * COLS - i,
        {
            let alive = random_ratio(rng, ALIVE_NUMERATOR, ALIVE_DENOMINATOR);
            draws.push(alive);
            i = i + 1;
        }
        self.fill(&draws);
    }
}

} // verus!
