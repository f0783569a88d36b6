//! Deterministic xorshift pseudo-random generator.
use vstd::prelude::*;

verus! {

/// The xorshift step: three shift-and-xor rounds over the 64-bit state.
pub open spec fn rng_next(s: u64) -> u64 {
    let a = s ^ (s << 13);
    let b = a ^ (a >> 7);
    b ^ (b << 16)
}

/// The generator state after `n` draws from state `s`.
pub open spec fn rng_nth(s: u64, n: nat) -> u64
    decreases n,
{
    if n == 0 {
        s
    } else {
        rng_next(rng_nth(s, (n - 1) as nat))
    }
}

/// The value a draw of `g` yields in `[low, high)`: the draw picks the point
/// `g / 2^64` of the way across the range, rounded down.
pub open spec fn range_value(g: u64, low: int, high: int) -> int {
    low + (g as int * (high - low)) / 0x1_0000_0000_0000_0000
}

/// A draw scaled onto `[low, high)` always lands inside it.
pub proof fn lemma_range_value_bounds(g: u64, low: int, high: int)
    requires
        low < high,
    ensures
        low <= range_value(g, low, high) < high,
{
    let span = high - low;
    vstd::arithmetic::mul::lemma_mul_nonnegative(g as int, span);
    vstd::arithmetic::div_mod::lemma_div_pos_is_pos(g as int * span, 0x1_0000_0000_0000_0000);
    vstd::arithmetic::mul::lemma_mul_strict_inequality(g as int, 0x1_0000_0000_0000_0000, span);
    vstd::arithmetic::div_mod::lemma_multiply_divide_lt(
        g as int * span,
        0x1_0000_0000_0000_0000,
        span,
    );
}

/// A deterministic xorshift generator over a 64-bit state word. Seeded once;
/// every draw is a pure function of the state, so runs replay exactly.
#[derive(Clone, Copy, Debug, PartialEq, Eq, Structural)]
pub struct Rng {
    pub seed: u64,
}

impl Rng {
    pub fn new(seed: u64) -> (r: Rng)
        ensures
            r == (Rng { seed }),
    {
        Rng { seed }
    }

    /// Advances the state by one xorshift step and returns the new state.
    pub fn gen(&mut self) -> (r: u64)
        ensures
            final(self).seed == rng_next(old(self).seed),
            r == rng_next(old(self).seed),
    {
        self.seed ^= self.seed << 13;
        self.seed ^= self.seed >> 7;
        self.seed ^= self.seed << 16;
        self.seed
    }

    /// Draws a value uniformly placed in `[low, high)`: one draw scaled onto
    /// the range, the fixed-point counterpart of drawing a fraction in [0, 1)
    /// and scaling it by `high - low`.
    pub fn gen_range(&mut self, low: i64, high: i64) -> (r: i64)
        requires
            low < high,
        ensures
            final(self).seed == rng_next(old(self).seed),
            r == range_value(rng_next(old(self).seed), low as int, high as int),
            low <= r < high,
    {
        let g: u64 = self.gen();
        let span: u128 = (high as i128 - low as i128) as u128;
        proof {
            assert(span as int == high as int - low as int);
            vstd::arithmetic::mul::lemma_mul_upper_bound(
                g as int,
                u64::MAX as int,
                span as int,
                u64::MAX as int,
            );
        }
        let prod: u128 = (g as u128) * span;
        let off: u128 = prod / 0x1_0000_0000_0000_0000u128;
        proof {
            vstd::arithmetic::mul::lemma_mul_strict_inequality(
                g as int,
                0x1_0000_0000_0000_0000,
                span as int,
            );
            vstd::arithmetic::div_mod::lemma_multiply_divide_lt(
                prod as int,
                0x1_0000_0000_0000_0000,
                span as int,
            );
            assert(prod as int / 0x1_0000_0000_0000_0000 >= 0);
        }
        let r: i128 = (low as i128) + (off as i128);
        r as i64
    }
}

} // verus!
