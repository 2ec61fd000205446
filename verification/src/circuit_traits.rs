//! The capability every benchmark circuit offers: construction from a seed
//! and a round count, and an independently computed expected public output.

use vstd::prelude::*;

use crate::field::Fe;

verus! {

/// A benchmark circuit generator.  `new_random` draws the private seeds and
/// bakes the circuit's minimum-size floor on top of the round count;
/// `get_result` computes, by plain field arithmetic with no constraint
/// system involved, the value the synthesized circuit's public output must
/// equal.
pub trait BenchCircuit: Sized {
    /// Whether the parameters meet this circuit's own minimum-size floor;
    /// the constructor always establishes it.
    spec fn valid(&self) -> bool;

    fn new_random(seed: u64, rounds: usize) -> (r: Self)
        requires
            1 <= rounds <= usize::MAX - 3,
        ensures
            r.valid(),
    ;

    fn get_result(&self) -> Fe
        requires
            self.valid(),
    ;
}

} // verus!
