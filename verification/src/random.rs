//! The game's deterministic pseudo-random generator (`Randomizer`).

use vstd::prelude::*;

verus! {

/// Rotate a 32-bit value right by `k` bits (`0 < k < 32`).
pub open spec fn rotr32(x: u32, k: u32) -> u32 {
    ((x >> k) | ((x << ((32 - k) as u32)) as u32)) as u32
}

fn rotr_exec(x: u32, k: u32) -> (r: u32)
    requires
        0 < k < 32,
    ensures
        r == rotr32(x, k),
{
    (x >> k) | (x << (32 - k))
}

/// Two-word additive generator state.
#[derive(Debug, Clone, Copy)]
pub struct Randomizer {
    pub state: (u32, u32),
}

/// Next state of the generator; the value returned is the new second word.
pub open spec fn random_step(st: (u32, u32)) -> (u32, u32) {
    let s = st.0;
    let t = st.1;
    (
        ((s as int + rotr32(t ^ 0x1234567Fu32, 7) as int + 1) % 0x1_0000_0000) as u32,
        ((rotr32(s, 3) as int - 1 + 0x1_0000_0000) % 0x1_0000_0000) as u32,
    )
}

impl Randomizer {
    /// Seeds both words with `seed`.
    pub fn new(seed: u32) -> (r: Randomizer)
        ensures
            r.state == (seed, seed),
    {
        Randomizer { state: (seed, seed) }
    }

    /// Advances the generator and returns the next 32-bit value.
    pub fn next(&mut self) -> (r: u32)
        ensures
            final(self).state == random_step(old(self).state),
            r == final(self).state.1,
    {
        let s = self.state.0;
        let t = self.state.1;
        let a = s.wrapping_add(rotr_exec(t ^ 0x1234567F, 7)).wrapping_add(1);
        let b = rotr_exec(s, 3).wrapping_sub(1);
        self.state = (a, b);
        b
    }

    /// A value in `0..limit` scaled from the next 32-bit value.
    pub fn random_range(&mut self, limit: u32) -> (r: u32)
        ensures
            final(self).state == random_step(old(self).state),
            r as int == (final(self).state.1 as int * limit as int) / 0x1_0000_0000,
            limit > 0 ==> r < limit,
    {
        let v = self.next();
        proof {
            assert(v as int * limit as int <= 0xFFFF_FFFF * 0xFFFF_FFFF) by (nonlinear_arith)
                requires
                    v <= 0xFFFF_FFFF,
                    limit <= 0xFFFF_FFFF,
            ;
            assert((v as int * limit as int) / 0x1_0000_0000 <= 0xFFFF_FFFF) by (nonlinear_arith)
                requires
                    v <= 0xFFFF_FFFF,
                    limit <= 0xFFFF_FFFF,
            ;
            if limit > 0 {
                assert((v as int * limit as int) / 0x1_0000_0000 < limit) by (nonlinear_arith)
                    requires
                        v < 0x1_0000_0000,
                        limit > 0,
                ;
            }
        }
        let prod: u64 = v as u64 * limit as u64;
        (prod / 0x1_0000_0000) as u32
    }
}

} // verus!
