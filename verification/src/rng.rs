//! A reproducible, portable pseudorandom generator, seeded by an explicit
//! integer and decoupled from any platform entropy source, so that a randomly
//! seeded simulation is deterministic.

use vstd::prelude::*;

verus! {

/// Replacement state for a zero seed, under which the xorshift recurrence
/// would be stuck at zero forever.
pub const ZERO_SEED_STATE: u64 = 0x9E3779B97F4A7C15;

/// The state a generator starts from for a given seed.
pub open spec fn seed_state(seed: u64) -> u64 {
    if seed == 0 {
        ZERO_SEED_STATE
    } else {
        seed
    }
}

/// One step of the 64-bit xorshift recurrence (shift triple 13, 7, 17).
pub open spec fn xorshift_step(s: u64) -> u64 {
    let a = s ^ (s << 13);
    let b = a ^ (a >> 7);
    b ^ (b << 17)
}

/// A 64-bit xorshift generator. Its whole state is one word, so equal seeds
/// give equal output streams on every machine.
#[derive(Debug, Clone, Copy, PartialEq, Eq, Structural)]
pub struct XorShift64 {
    /// Current state; never zero when constructed through [`XorShift64::new`].
    pub state: u64,
}

impl XorShift64 {
    /// Seeds the generator. A zero seed is mapped to a fixed nonzero state,
    /// since zero is a fixed point of the recurrence.
    pub fn new(seed: u64) -> (rng: Self)
        ensures
            rng.state == seed_state(seed),
            rng.state != 0,
    {
        let state = if seed == 0 { ZERO_SEED_STATE } else { seed };
        XorShift64 { state }
    }

    /// Advances the state by one xorshift step and returns it.
    pub fn next(&mut self) -> (r: u64)
        ensures
            final(self).state == xorshift_step(old(self).state),
            r == final(self).state,
    {
        let mut s = self.state;
        s = s ^ (s << 13);
        s = s ^ (s >> 7);
        s = s ^ (s << 17);
        self.state = s;
        s
    }
}

} // verus!
