use vstd::prelude::*;
use rand::{RngCore, SeedableRng};
use rand_chacha::ChaCha12Rng;

verus! {

/// The 32-bit word at position `pos` of the pseudo-random stream that a
/// ChaCha12 generator seeded from `seed` produces. The stream is a fixed
/// function of the seed, so generation that draws from it is reproducible.
pub uninterp spec fn stream_word(seed: u64, pos: u64) -> u32;

/// Relies on rand_chacha's ChaCha12Rng (the algorithm behind rand's StdRng):
/// after `seed_from_u64(seed)` and `set_word_pos(pos)`, `next_u32` returns the
/// 32-bit word of the seed's stream at position `pos`. The crate documents the
/// generator as deterministic and portable, so the result depends on `seed`
/// and `pos` alone.
#[verifier::external_body]
pub(crate) fn chacha_word(seed: u64, pos: u64) -> (r: u32)
    ensures
        r == stream_word(seed, pos),
{
    let mut rng = ChaCha12Rng::seed_from_u64(seed);
    rng.set_word_pos(pos as u128);
    rng.next_u32()
}

/// Relies on rand::thread_rng and rand::Rng::gen_range: a uniform draw below
/// `n` from the thread-local generator. Nothing more than the range is
/// promised of a fresh random draw.
#[verifier::external_body]
pub(crate) fn thread_random_below(n: u32) -> (r: u32)
    requires
        n > 0,
    ensures
        r < n,
{
    rand::Rng::gen_range(&mut rand::thread_rng(), 0..n)
}

/// A draw from the stream of `seed` at position `pos`, reduced below `n`.
pub fn draw_below(seed: u64, pos: u64, n: u32) -> (r: u32)
    requires
        n > 0,
    ensures
        r == stream_word(seed, pos) % n,
        r < n,
{
    chacha_word(seed, pos) % n
}

/// The position that follows `pos` in a stream; the last position repeats so
/// that advancing is total.
pub open spec fn next_pos(pos: u64) -> u64 {
    if pos == u64::MAX {
        u64::MAX
    } else {
        (pos + 1) as u64
    }
}

/// An exclusively owned handle on the pseudo-random stream of one seed: draws
/// advance `pos`, so a generator that owns the handle consumes the stream in
/// a reproducible order.
pub struct SeededRng {
    pub seed: u64,
    pub pos: u64,
}

impl SeededRng {
    pub fn new(seed: u64) -> (r: SeededRng)
        ensures
            r.seed == seed,
            r.pos == 0,
    {
        SeededRng { seed, pos: 0 }
    }

    /// The next raw 32-bit word of the stream.
    pub fn next_word(&mut self) -> (r: u32)
        ensures
            final(self).seed == old(self).seed,
            final(self).pos == next_pos(old(self).pos),
            r == stream_word(old(self).seed, old(self).pos),
    {
        let r = chacha_word(self.seed, self.pos);
        if self.pos < u64::MAX {
            self.pos = self.pos + 1;
        }
        r
    }

    /// A draw below `n`.
    pub fn below(&mut self, n: u32) -> (r: u32)
        requires
            n > 0,
        ensures
            final(self).seed == old(self).seed,
            final(self).pos == next_pos(old(self).pos),
            r == stream_word(old(self).seed, old(self).pos) % n,
            r < n,
    {
        self.next_word() % n
    }

    /// A draw in `[lo, hi)`.
    pub fn range_usize(&mut self, lo: usize, hi: usize) -> (r: usize)
        requires
            lo < hi,
            hi - lo <= u32::MAX,
        ensures
            final(self).seed == old(self).seed,
            final(self).pos == next_pos(old(self).pos),
            lo <= r < hi,
            r == lo + stream_word(old(self).seed, old(self).pos) % ((hi - lo) as u32),
    {
        let span: u32 = (hi - lo) as u32;
        let d = self.below(span);
        lo + (d as usize)
    }

    /// True with probability `num` in `den`.
    pub fn chance(&mut self, num: u32, den: u32) -> (r: bool)
        requires
            den > 0,
        ensures
            final(self).seed == old(self).seed,
            final(self).pos == next_pos(old(self).pos),
            r == (stream_word(old(self).seed, old(self).pos) % den < num),
    {
        self.below(den) < num
    }
}

} // verus!
