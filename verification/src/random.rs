//! The generator behind `random` and `pick`: a counter that is mixed into 64
//! bits at each draw. A run is a function of its seed.

use vstd::prelude::*;

verus! {

/// The step of the counter.
pub const STRIDE: u64 = 0x9E37_79B9_7F4A_7C15;

/// The first multiplier of the mixing function.
pub const MIX_A: u64 = 0xBF58_476D_1CE4_E5B9;

/// The second multiplier of the mixing function.
pub const MIX_B: u64 = 0x94D0_49BB_1331_11EB;

/// The state of the generator.
#[derive(Clone, Copy, Debug, PartialEq, Eq, Structural)]
pub struct Rng {
    pub state: u64,
}

/// Spreads the bits of `z`: two rounds of shift, exclusive or and wrapping
/// multiplication, and a last shift and exclusive or.
pub open spec fn mixed(z: u64) -> u64 {
    let a = (z ^ (z >> 30)).wrapping_mul(MIX_A);
    let b = (a ^ (a >> 27)).wrapping_mul(MIX_B);
    b ^ (b >> 31)
}

impl Rng {
    /// The generator after one draw.
    pub open spec fn advanced(self) -> Rng {
        Rng { state: self.state.wrapping_add(STRIDE) }
    }

    /// The value of the next draw.
    pub open spec fn drawn(self) -> u64 {
        mixed(self.advanced().state)
    }

    /// The next draw reduced to `0 .. bound`.
    pub open spec fn drawn_below(self, bound: u64) -> u64
        recommends
            bound > 0,
    {
        self.drawn() % bound
    }

    /// The generator that starts at `seed`.
    pub fn seeded(seed: u64) -> (r: Rng)
        ensures
            r.state == seed,
    {
        Rng { state: seed }
    }

    /// Draws 64 bits and advances.
    pub fn draw(&mut self) -> (r: u64)
        ensures
            r == old(self).drawn(),
            *final(self) == old(self).advanced(),
    {
        self.state = self.state.wrapping_add(STRIDE);
        let z: u64 = self.state;
        let a: u64 = (z ^ (z >> 30)).wrapping_mul(MIX_A);
        let b: u64 = (a ^ (a >> 27)).wrapping_mul(MIX_B);
        b ^ (b >> 31)
    }

    /// Draws a value below `bound` and advances.
    pub fn draw_below(&mut self, bound: u64) -> (r: u64)
        requires
            bound > 0,
        ensures
            r == old(self).drawn_below(bound),
            r < bound,
            *final(self) == old(self).advanced(),
    {
        let d: u64 = self.draw();
        d % bound
    }
}

} // verus!
