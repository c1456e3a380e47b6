//! A small seedable generator for the fallback selector.
//!
//! The randomized path takes its generator as an explicit parameter instead
//! of drawing from ambient entropy: production callers seed it freshly per
//! query, while tests pass a fixed seed to reproduce one permutation.
//! Nothing is promised about the produced values beyond their range; no
//! selection contract may depend on which numbers come out.

use vstd::prelude::*;

verus! {

/// A 64-bit xorshift generator.
#[derive(Clone, Copy, Debug)]
pub struct XorShift64 {
    pub state: u64,
}

impl XorShift64 {
    /// Seeds the generator; a zero seed is replaced, since the all-zero
    /// state is a fixed point of the step function.
    pub fn new(seed: u64) -> (r: Self)
        ensures
            r.state != 0,
    {
        let state = if seed == 0 {
            0x9E3779B97F4A7C15u64
        } else {
            seed
        };
        XorShift64 { state }
    }

    pub fn next_u64(&mut self) -> (r: u64) {
        let mut x = self.state;
        x = x ^ (x << 13u64);
        x = x ^ (x >> 7u64);
        x = x ^ (x << 17u64);
        self.state = x;
        x
    }

    /// A draw in `0 .. n`.
    pub fn next_below(&mut self, n: usize) -> (r: usize)
        requires
            n > 0,
        ensures
            r < n,
    {
        let x = self.next_u64();
        (x % (n as u64)) as usize
    }
}

} // verus!
