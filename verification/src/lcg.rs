//! A linear congruential generator with the classic Visual Basic parameters:
//! a small source of repeatable pseudo-random numbers, for workloads that
//! pace themselves the same way on every run.

use vstd::prelude::*;

verus! {

/// The multiplier of the generator.
pub const MULTIPLIER: u64 = 1140671485;

/// The increment of the generator.
pub const INCREMENT: u64 = 12820163;

/// The modulus of the generator, two to the power of 24.
pub const MODULUS: u64 = 16777216;

/// The state that follows `seed`.
pub open spec fn lcg_step(seed: nat) -> nat {
    (MULTIPLIER as nat * seed + INCREMENT as nat) % (MODULUS as nat)
}

/// A linear congruential generator. Each state follows from the one before
/// by a multiplication and an addition modulo two to the power of 24.
pub struct LCG {
    seed: u64,
    a: u64,
    c: u64,
    modulous: u64,
}

impl LCG {
    #[verifier::type_invariant]
    spec fn well_formed(self) -> bool {
        &&& self.a == MULTIPLIER
        &&& self.c == INCREMENT
        &&& self.modulous == MODULUS
    }

    /// The current state of the generator.
    pub closed spec fn state(&self) -> nat {
        self.seed as nat
    }

    /// A generator that starts from `seed`.
    pub fn new(seed: u64) -> (g: Self)
        ensures
            g.state() == seed,
    {
        LCG { seed, a: MULTIPLIER, c: INCREMENT, modulous: MODULUS }
    }

    /// Advances the generator by one step and returns the new state masked
    /// with `max` (a bitwise and, so the result never exceeds `max`).
    pub fn next(&mut self, max: u64) -> (r: u64)
        ensures
            final(self).state() == lcg_step(old(self).state()),
            final(self).state() < MODULUS,
            r == (final(self).state() as u64) & max,
            r <= max,
    {
        proof {
            use_type_invariant(&*self);
        }
        let product: u64 = self.a.wrapping_mul(self.seed);
        let sum: u64 = product.wrapping_add(self.c);
        let next: u64 = sum % self.modulous;
        proof {
            lemma_wrapped_step(self.seed, product, sum);
            assert(next & max <= max) by (bit_vector);
        }
        self.seed = next;
        next & max
    }
}

/// Wrapping at 64 bits does not change a value modulo two to the power of 24.
proof fn lemma_wrapped_step(seed: u64, product: u64, sum: u64)
    requires
        product == vstd::wrapping::u64_specs::wrapping_mul(MULTIPLIER, seed),
        sum == vstd::wrapping::u64_specs::wrapping_add(product, INCREMENT),
    ensures
        (sum % MODULUS) as nat == lcg_step(seed as nat),
{
    let full: int = MULTIPLIER as int * seed as int;
    let two64: int = 0x1_0000_0000_0000_0000;
    let m: int = MODULUS as int;
    assert(two64 == m * 0x100_0000_0000);
    assert(product as int == full % two64);
    vstd::arithmetic::div_mod::lemma_mod_mod(full, m, 0x100_0000_0000);
    assert((product as int) % m == full % m);
    let raw: int = product as int + INCREMENT as int;
    assert(sum as int == raw % two64) by {
        if raw > u64::MAX {
            vstd::arithmetic::div_mod::lemma_mod_sub_multiples_vanish(raw, two64);
            vstd::arithmetic::div_mod::lemma_small_mod((raw - two64) as nat, two64 as nat);
        } else {
            vstd::arithmetic::div_mod::lemma_small_mod(raw as nat, two64 as nat);
        }
    }
    vstd::arithmetic::div_mod::lemma_mod_mod(raw, m, 0x100_0000_0000);
    assert((sum as int) % m == raw % m);
    vstd::arithmetic::div_mod::lemma_add_mod_noop(product as int, INCREMENT as int, m);
    vstd::arithmetic::div_mod::lemma_add_mod_noop(full, INCREMENT as int, m);
}

} // verus!
