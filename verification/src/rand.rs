use vstd::prelude::*;

verus! {

/// One step of the linear congruential recurrence: the 32-bit state is
/// multiplied by 1103515245 and incremented by 12345, wrapping modulo 2^32.
pub open spec fn lcg_next(s: u32) -> u32 {
    ((s * 1103515245 + 12345) % 0x1_0000_0000) as u32
}

/// The value handed out for a given state: 15 bits taken from the upper
/// half of the state, a number in `[0, 32768)`.
pub open spec fn lcg_output(s: u32) -> u32 {
    (((s as int) / 65536) % 32768) as u32
}

/// Deterministic pseudo-random generator. Given the same seed it produces
/// the same sequence on every run, which keeps collectible placement
/// reproducible.
pub struct Rand {
    pub state: u32,
}

impl Rand {
    pub fn new(seed: u32) -> (r: Rand)
        ensures
            r.state == seed,
    {
        Rand { state: seed }
    }

    /// Advances the state by one recurrence step and returns a value in
    /// `[0, 32768)` derived from the new state.
    pub fn next(&mut self) -> (r: u32)
        ensures
            final(self).state == lcg_next(old(self).state),
            r == lcg_output(final(self).state),
            r < 32768,
    {
        self.state = self.state.wrapping_mul(1103515245).wrapping_add(12345);
        proof {
            lemma_wrap_is_lcg(old(self).state);
        }
        (self.state / 65536) % 32768
    }
}

/// The composition of wrapping multiply and wrapping add equals the single
/// mod-2^32 expression that `lcg_next` states.
proof fn lemma_wrap_is_lcg(s: u32)
    ensures
        vstd::wrapping::u32_specs::wrapping_add(
            vstd::wrapping::u32_specs::wrapping_mul(s, 1103515245),
            12345,
        ) == lcg_next(s),
{
    let r: int = 0x1_0000_0000;
    let p: int = s * 1103515245;
    let m: int = p % r;
    vstd::arithmetic::div_mod::lemma_fundamental_div_mod(p, r);
    vstd::arithmetic::div_mod::lemma_mod_multiples_vanish(p / r, m + 12345, r);
    if m + 12345 >= r {
        vstd::arithmetic::div_mod::lemma_mod_multiples_vanish(1, m + 12345 - r, r);
        vstd::arithmetic::div_mod::lemma_small_mod((m + 12345 - r) as nat, r as nat);
    } else {
        vstd::arithmetic::div_mod::lemma_small_mod((m + 12345) as nat, r as nat);
    }
}

} // verus!
