//! Deterministic pseudo-random source.
//!
//! The generator is the Xorshift128+ algorithm. Both the state transition
//! and the output are spec functions of the previous state, so any
//! computation driven by this source is a mathematical function of its seed:
//! re-running it with the same seed reproduces the same values bit for bit.

use vstd::prelude::*;
use crate::fixed::SCALE;

verus! {

/// State of a Xorshift128+ generator: two 64-bit words, not both zero when
/// seeded through [`Rng::seeded`].
#[derive(Debug, Clone, Copy, PartialEq, Eq, Structural)]
pub struct Rng {
    pub s0: u64,
    pub s1: u64,
}

/// The state that seeding with `seed` produces: the words beside the seed,
/// wrapping at the 64-bit boundary.
pub open spec fn rng_seeded(seed: u64) -> Rng {
    Rng {
        s0: (((seed as int) + 18446744073709551615) % 18446744073709551616) as u64,
        s1: (((seed as int) + 1) % 18446744073709551616) as u64,
    }
}

/// One state transition of Xorshift128+.
pub open spec fn rng_step(r: Rng) -> Rng {
    let x = r.s0;
    let y = r.s1;
    let a = x ^ (x << 23u64);
    let b = a ^ (a >> 17u64);
    let c = b ^ y ^ (y >> 26u64);
    Rng { s0: y, s1: c }
}

/// The word that the transition from `r` emits.
pub open spec fn rng_out(r: Rng) -> u64 {
    (((rng_step(r).s1 as int) + (r.s1 as int)) % 18446744073709551616) as u64
}

/// A raw word mapped to a fixed-point fraction in `[0, 1]`, rounding to
/// nearest: the zero word gives zero, the all-ones word gives exactly one.
pub open spec fn unit_frac(u: u64) -> int {
    ((u as int) * 65536 + 9223372036854775807) / 18446744073709551615
}

/// A raw word mapped to one byte.
pub open spec fn byte_of(u: u64) -> int {
    (u as int) % 256
}

impl Rng {
    /// Builds the generator state for a seed.
    pub fn seeded(seed: u64) -> (r: Rng)
        ensures
            r == rng_seeded(seed),
    {
        Rng { s0: seed.wrapping_sub(1), s1: seed.wrapping_add(1) }
    }

    /// Advances the state once and returns the emitted word.
    pub fn next_u64(&mut self) -> (o: u64)
        ensures
            *final(self) == rng_step(*old(self)),
            o == rng_out(*old(self)),
    {
        let x = self.s0;
        let y = self.s1;
        self.s0 = y;
        let a = x ^ (x << 23);
        let b = a ^ (a >> 17);
        let c = b ^ y ^ (y >> 26);
        self.s1 = c;
        c.wrapping_add(y)
    }

    /// Draws a fixed-point fraction in `[0, 1]`.
    pub fn next_unit(&mut self) -> (r: i64)
        ensures
            *final(self) == rng_step(*old(self)),
            r == unit_frac(rng_out(*old(self))),
            0 <= r <= SCALE,
    {
        let u = self.next_u64();
        to_unit_frac(u)
    }

    /// Draws one byte.
    pub fn next_byte(&mut self) -> (r: u8)
        ensures
            *final(self) == rng_step(*old(self)),
            r == byte_of(rng_out(*old(self))),
    {
        let u = self.next_u64();
        (u % 256) as u8
    }
}

/// Converts a raw word into a fixed-point fraction in `[0, 1]`.
pub fn to_unit_frac(u: u64) -> (r: i64)
    ensures
        r == unit_frac(u),
        0 <= r <= SCALE,
{
    let p: u128 = (u as u128) * 65536 + 9223372036854775807;
    let q: u128 = p / 18446744073709551615;
    proof {
        vstd::arithmetic::div_mod::lemma_div_is_ordered(
            p as int,
            1208935042986666029416447int,
            18446744073709551615int,
        );
    }
    q as i64
}

} // verus!
