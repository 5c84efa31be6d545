//! The seed-driven pseudo-random draw used at settlement.
//!
//! This generator is predictable from its seed: it must not be used where a
//! caller can learn or choose the seed before the draw.
use vstd::arithmetic::div_mod::{lemma_add_mod_noop, lemma_mod_mod};
use vstd::prelude::*;

verus! {

/// Multiplier of the linear congruential recurrence.
pub const LCG_MULTIPLIER: u64 = 1664525;

/// Increment of the linear congruential recurrence.
pub const LCG_INCREMENT: u64 = 1013904223;

/// Modulus of the recurrence, 2^32.
pub const LCG_MODULUS: u64 = 0x1_0000_0000;

/// Number of distinct draw values: a draw lies in `[0, DRAW_RANGE)`.
pub const DRAW_RANGE: u64 = 10000;

/// One step of the recurrence: `(a * state + c) mod 2^32`.
pub open spec fn lcg_step(state: u64) -> u64 {
    ((LCG_MULTIPLIER * state + LCG_INCREMENT) % (LCG_MODULUS as int)) as u64
}

/// The draw value for a seed: one step of the recurrence, reduced to `[0, 10000)`.
pub open spec fn draw_of(seed: u64) -> u64 {
    (lcg_step(seed) % DRAW_RANGE) as u64
}

/// Linear congruential generator with the Numerical Recipes parameters.
pub struct Lcg {
    pub state: u64,
}

impl Lcg {
    /// A generator whose state is the seed.
    pub fn new(seed: u64) -> (r: Lcg)
        ensures
            r.state == seed,
    {
        let start_seed = seed;
        Lcg { state: start_seed }
    }

    /// Advances the state by one step of the recurrence and returns the new state.
    pub fn next(&mut self) -> (r: u64)
        ensures
            r == lcg_step(old(self).state),
            final(self).state == r,
            r < LCG_MODULUS,
    {
        let a: u64 = LCG_MULTIPLIER;
        let c: u64 = LCG_INCREMENT;
        let m: u64 = LCG_MODULUS;
        let s: u64 = self.state;
        let product: u64 = a.wrapping_mul(s);
        let sum: u64 = product.wrapping_add(c);
        proof {
            lemma_wrapped_step(s);
        }
        self.state = sum % m;
        self.state
    }
}

/// Reducing the 64-bit wrapped computation modulo 2^32 gives the exact step.
proof fn lemma_wrapped_step(s: u64)
    ensures
        ((((LCG_MULTIPLIER * s) % 0x1_0000_0000_0000_0000int + LCG_INCREMENT)
            % 0x1_0000_0000_0000_0000int) % 0x1_0000_0000int) == lcg_step(s) as int,
{
    let big: int = 0x1_0000_0000_0000_0000int;
    let m: int = 0x1_0000_0000int;
    let x: int = LCG_MULTIPLIER * s;
    let c: int = LCG_INCREMENT as int;
    assert(big == m * m);
    lemma_mod_mod(x % big + c, m, m);
    lemma_mod_mod(x, m, m);
    lemma_add_mod_noop(x % big, c, m);
    lemma_add_mod_noop(x, c, m);
    assert((c % m) == c);
}

/// The draw value for `seed`: the generator is advanced exactly once and its
/// new state reduced to `[0, 10000)`.
pub fn generate_random_value(seed: u64) -> (r: u128)
    ensures
        r == draw_of(seed),
        r < DRAW_RANGE,
{
    let mut lcg = Lcg::new(seed);
    let next_state: u64 = lcg.next();
    let random_value: u64 = next_state % DRAW_RANGE;
    random_value as u128
}

} // verus!
