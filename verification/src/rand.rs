//! A stateful uniform sampler.
//!
//! A linear-congruential generator over a 32-bit state. Each draw is an exact
//! function of the state, so any computation threaded through one sampler is
//! a deterministic function of the seed.

use vstd::prelude::*;
use vstd::arithmetic::div_mod::{lemma_div_is_ordered, lemma_div_pos_is_pos, lemma_div_by_multiple};
use crate::fx::{SCALE, fx_mul, fx_mul_spec, lemma_fx_mul_bound, abs_i};

verus! {

/// The state that follows `s`.
pub open spec fn lcg_next(s: int) -> int {
    (s * 1103515245 + 12345) % 4294967296
}

/// The scalar in [0, 1) drawn when the state is `s`.
pub open spec fn lcg_out(s: int) -> int {
    lcg_next(s) / 65536
}

/// The scalar in [min, max] drawn when the state is `s`.
pub open spec fn lcg_out_in(s: int, min: int, max: int) -> int {
    min + fx_mul_spec(lcg_out(s), max - min)
}

pub struct Rand {
    pub curr: u32,
}

impl Rand {
    /// A sampler with the default seed.
    pub fn new() -> (r: Self)
        ensures
            r.curr == 1,
    {
        Self { curr: 1 }
    }

    /// A sampler with the given seed; equal seeds give equal draw sequences.
    pub fn new_with_seed(seed: u32) -> (r: Self)
        ensures
            r.curr == seed,
    {
        Self { curr: seed }
    }

    /// The next scalar, uniform in [0, 1).
    pub fn next(&mut self) -> (r: i64)
        ensures
            final(self).curr == lcg_next(old(self).curr as int),
            r == lcg_out(old(self).curr as int),
            0 <= r < SCALE,
    {
        let s2: u64 = (self.curr as u64) * 1103515245 + 12345;
        self.curr = (s2 % 4294967296) as u32;
        proof {
            lemma_div_pos_is_pos(self.curr as int, 65536);
            lemma_div_is_ordered(self.curr as int, 4294967295, 65536);
        }
        (self.curr / 65536) as i64
    }

    /// The next scalar, uniform in [min, max].
    pub fn next_with_range(&mut self, range_min: i64, range_max: i64) -> (r: i64)
        requires
            range_min <= range_max,
            -0x40000000 <= range_min,
            range_max <= 0x40000000,
        ensures
            final(self).curr == lcg_next(old(self).curr as int),
            r == lcg_out_in(old(self).curr as int, range_min as int, range_max as int),
            range_min <= r <= range_max,
    {
        let u = self.next();
        let d = range_max - range_min;
        proof {
            lemma_fx_mul_bound(u as int, d as int, 65535, d as int);
            assert(abs_i(fx_mul_spec(u as int, d as int)) <= (65535 * d) / 65536);
            lemma_div_is_ordered(65535 * d, 65536 * d, 65536);
            lemma_div_by_multiple(d as int, 65536);
            assert((65536 * d) / 65536 == d);
            assert(0 <= fx_mul_spec(u as int, d as int)) by {
                assert(u * d >= 0) by (nonlinear_arith)
                    requires
                        u >= 0,
                        d >= 0,
                ;
                lemma_div_pos_is_pos(abs_i(u as int * d as int), SCALE as int);
            }
        }
        let m = fx_mul(u, d);
        range_min + m
    }
}

} // verus!
