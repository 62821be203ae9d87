//! A deterministic pseudo-random source.
//!
//! Every random draw in the library comes from an explicit `Rng` value, so a
//! render is a pure function of its seed: workers can own independent
//! sources seeded from (seed, row), and a fixed seed reproduces an image
//! byte for byte. Fresh entropy, when wanted, enters only through the seed.

use vstd::prelude::*;
use crate::fixed::{SCALE, fx_mul_spec, lemma_fx_mul_bounded, lemma_div_tz_bounded};

verus! {

/// One xorshift step: the next state after a draw.
pub open spec fn rng_next_spec(s: u64) -> u64 {
    let a = s ^ (s >> 12u64);
    let b = a ^ (a << 25u64);
    b ^ (b >> 27u64)
}

/// The fixed-point value in `[0, SCALE)` drawn from a state: the top 20 bits
/// of the successor state.
pub open spec fn rng_unit_spec(s: u64) -> i64 {
    (rng_next_spec(s) >> 44u64) as i64
}

/// A draw lies in `[0, SCALE)`.
pub proof fn lemma_rng_unit_range(s: u64)
    ensures
        0 <= rng_unit_spec(s) < SCALE,
{
    let v = rng_next_spec(s);
    assert(v >> 44u64 < 1048576u64) by (bit_vector);
}

/// The value drawn in `[lo, hi)` scaled from a unit draw: `lo + u * (hi - lo)`.
pub open spec fn rng_in_range_spec(s: u64, lo: int, hi: int) -> int {
    lo + fx_mul_spec(rng_unit_spec(s) as int, hi - lo)
}

/// The seed of the worker for one image row, mixed so that nearby rows get
/// unrelated streams.
pub open spec fn row_seed_spec(seed: u64, row: u64) -> u64 {
    rng_next_spec(rng_next_spec(seed ^ (row ^ 0x9E3779B97F4A7C15u64)))
}

/// A deterministic pseudo-random source (xorshift with 64 bits of state).
#[derive(Clone, Copy)]
pub struct Rng {
    state: u64,
}

impl View for Rng {
    type V = u64;

    closed spec fn view(&self) -> u64 {
        self.state
    }
}

impl Rng {
    /// A source seeded with the given value. A zero seed is replaced by a
    /// fixed odd constant, since the all-zero state is a fixed point of the
    /// step function.
    pub fn new(seed: u64) -> (r: Rng)
        ensures
            r@ == seed_fix_spec(seed),
    {
        if seed == 0 {
            Rng { state: 0x9E3779B97F4A7C15 }
        } else {
            Rng { state: seed }
        }
    }

    /// A source seeded from the process's entropy; nothing is promised of
    /// which stream it yields.
    pub fn from_entropy() -> Rng {
        Rng::new(entropy_u64())
    }

    /// Advance the state and return it.
    pub fn next_u64(&mut self) -> (r: u64)
        ensures
            final(self)@ == rng_next_spec(old(self)@),
            r == rng_next_spec(old(self)@),
    {
        let s = self.state;
        let a = s ^ (s >> 12u64);
        let b = a ^ (a << 25u64);
        let c = b ^ (b >> 27u64);
        self.state = c;
        c
    }

    /// Draw a fixed-point value uniform in `[0, SCALE)`, the unit interval.
    pub fn next_unit(&mut self) -> (r: i64)
        ensures
            final(self)@ == rng_next_spec(old(self)@),
            r == rng_unit_spec(old(self)@),
            0 <= r < SCALE,
    {
        proof {
            lemma_rng_unit_range(old(self)@);
        }
        let v = self.next_u64();
        proof {
            assert(v >> 44u64 < 1048576u64) by (bit_vector);
        }
        (v >> 44u64) as i64
    }

    /// Draw a fixed-point value in `[lo, hi]`, spread linearly over the span.
    pub fn next_in_range(&mut self, lo: i64, hi: i64) -> (r: i64)
        requires
            lo <= hi,
            -0x10000000000 <= lo,
            hi <= 0x10000000000,
        ensures
            final(self)@ == rng_next_spec(old(self)@),
            r == rng_in_range_spec(old(self)@, lo as int, hi as int),
            lo <= r <= hi,
    {
        let u = self.next_unit();
        proof {
            assert((u as int) * (hi - lo) <= (SCALE as int) * (hi - lo)) by (nonlinear_arith)
                requires
                    0 <= u <= SCALE as int,
                    hi - lo >= 0,
            ;
            assert(0 <= (u as int) * (hi - lo)) by (nonlinear_arith)
                requires
                    0 <= u,
                    hi - lo >= 0,
            ;
            lemma_fx_mul_bounded(u as int, hi - lo, SCALE as int, hi - lo);
            lemma_div_tz_bounded((u as int) * (hi - lo), SCALE as int, (SCALE as int) * (hi - lo));
            vstd::arithmetic::div_mod::lemma_div_multiples_vanish(hi - lo, SCALE as int);
        }
        let off = crate::fixed::fx_mul(u, hi - lo);
        lo + off
    }
}

/// The state a fresh source starts from for a given seed.
pub open spec fn seed_fix_spec(seed: u64) -> u64 {
    if seed == 0 {
        0x9E3779B97F4A7C15u64
    } else {
        seed
    }
}

/// Relies on `rand::random::<u64>()`: a value drawn from the thread-local
/// generator of the `rand` crate; nothing is assumed of its distribution.
#[verifier::external_body]
pub fn entropy_u64() -> u64 {
    rand::random::<u64>()
}

/// The seed of the worker for one image row.
pub fn row_seed(seed: u64, row: u64) -> (r: u64)
    ensures
        r == row_seed_spec(seed, row),
{
    let mut rng = Rng { state: seed ^ (row ^ 0x9E3779B97F4A7C15) };
    let _ = rng.next_u64();
    rng.next_u64()
}

} // verus!
