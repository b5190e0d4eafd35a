//! 32-bit xorshift generator (Marsaglia, shifts 13/17/5) that drives the
//! excitation noise bursts.

use vstd::prelude::*;

verus! {

/// Seed used in place of 0, which is a fixed point of the xorshift map.
pub const ZERO_SEED_REPLACEMENT: u32 = 0xDEAD_BEEF;

/// One step of the xorshift map: `x ^= x << 13; x ^= x >> 17; x ^= x << 5`
/// (shifts on 32 bits, bits shifted out are lost).
pub open spec fn xorshift32_step(x: u32) -> u32 {
    let a = x ^ (x << 13u32);
    let b = a ^ (a >> 17u32);
    b ^ (b << 5u32)
}

/// The state after `n` steps from `x`.
pub open spec fn xorshift32_iter(x: u32, n: nat) -> u32
    decreases n,
{
    if n == 0 {
        x
    } else {
        xorshift32_step(xorshift32_iter(x, (n - 1) as nat))
    }
}

/// Each of the three xor-shift stages is a bijection, so a non-zero state never
/// steps to zero.
pub proof fn lemma_step_nonzero(x: u32)
    requires
        x != 0,
    ensures
        xorshift32_step(x) != 0,
{
    let a = x ^ (x << 13u32);
    let b = a ^ (a >> 17u32);
    assert(x != 0 ==> x ^ (x << 13u32) != 0) by (bit_vector);
    assert(a != 0 ==> a ^ (a >> 17u32) != 0) by (bit_vector);
    assert(b != 0 ==> b ^ (b << 5u32) != 0) by (bit_vector);
}

pub struct XorShift32 {
    state: u32,
}

impl XorShift32 {
    /// Current state of the generator.
    pub closed spec fn state(&self) -> u32 {
        self.state
    }

    pub fn new(seed: u32) -> (r: Self)
        ensures
            r.state() == if seed == 0 { ZERO_SEED_REPLACEMENT } else { seed },
            r.state() != 0,
    {
        Self { state: if seed == 0 { ZERO_SEED_REPLACEMENT } else { seed } }
    }

    pub fn next_u32(&mut self) -> (r: u32)
        ensures
            r == xorshift32_step(old(self).state()),
            final(self).state() == r,
            old(self).state() != 0 ==> r != 0,
    {
        let mut x = self.state;
        x ^= x << 13u32;
        x ^= x >> 17u32;
        x ^= x << 5u32;
        self.state = x;
        proof {
            if old(self).state() != 0 {
                lemma_step_nonzero(old(self).state());
            }
        }
        x
    }
}

/// A generator never reaches the zero state: from any seed, every state of the
/// sequence is non-zero.
pub proof fn lemma_never_zero(seed: u32, n: nat)
    ensures
        xorshift32_iter(if seed == 0 { ZERO_SEED_REPLACEMENT } else { seed }, n) != 0,
    decreases n,
{
    if n > 0 {
        lemma_never_zero(seed, (n - 1) as nat);
        lemma_step_nonzero(
            xorshift32_iter(if seed == 0 { ZERO_SEED_REPLACEMENT } else { seed }, (n - 1) as nat),
        );
    }
}

} // verus!
