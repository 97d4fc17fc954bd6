//! The byte generator that both ends of a link run in step.
use rand_core::{RngCore, SeedableRng};
use vstd::prelude::*;

verus! {

/// The error type of `rand_core`, carried through `try_fill_bytes` and never inspected.
#[verifier::external_type_specification]
#[verifier::external_body]
pub struct ExRandError(rand_core::Error);

/// A generator whose every output is one more than the previous one, modulo 256.
#[derive(Clone, Copy, Debug, PartialEq, Eq)]
pub struct IncOneRng {
    /// The byte that was drawn last, or the seed if none was drawn.
    pub x: u8,
}

/// The byte that a generator in state `x` yields after `k` earlier draws.
pub open spec fn stream_byte(x: u8, k: int) -> u8 {
    ((x + 1 + k) % 256) as u8
}

/// The first `n` bytes that a generator in state `x` yields.
pub open spec fn stream(x: u8, n: nat) -> Seq<u8> {
    Seq::new(n, |k: int| stream_byte(x, k))
}

/// The state of a generator that was in state `x` and has been drawn from `n` times.
pub open spec fn advanced(x: u8, n: int) -> u8 {
    ((x + n) % 256) as u8
}

impl IncOneRng {
    /// Draws one byte.
    pub fn next_u8(&mut self) -> (r: u8)
        ensures
            r == stream_byte(old(self).x, 0),
            final(self).x == r,
    {
        self.x = self.x.wrapping_add(1);
        self.x
    }
}

impl RngCore for IncOneRng {
    fn next_u32(&mut self) -> (r: u32)
        ensures
            r == stream_byte(old(self).x, 0),
            final(self).x == r,
    {
        self.next_u8() as u32
    }

    fn next_u64(&mut self) -> (r: u64)
        ensures
            r == stream_byte(old(self).x, 0),
            final(self).x == r,
    {
        self.next_u8() as u64
    }

    fn fill_bytes(&mut self, dest: &mut [u8])
        ensures
            final(dest)@ == stream(old(self).x, old(dest)@.len()),
            final(self).x == advanced(old(self).x, old(dest)@.len() as int),
    {
        let ghost start = self.x;
        let n: usize = dest.len();
        let mut i: usize = 0;
        while i < n
            invariant
                i <= n,
                n == dest@.len(),
                n == old(dest)@.len(),
                self.x == advanced(start, i as int),
                forall|k: int| 0 <= k < i ==> dest@[k] == stream_byte(start, k),
            decreases n - i,
        {
            dest[i] = self.next_u8();
            i += 1;
        }
        assert(dest@ =~= stream(start, n as nat));
    }

    fn try_fill_bytes(&mut self, dest: &mut [u8]) -> (r: Result<(), rand_core::Error>)
        ensures
            r is Ok,
            final(dest)@ == stream(old(self).x, old(dest)@.len()),
            final(self).x == advanced(old(self).x, old(dest)@.len() as int),
    {
        self.fill_bytes(dest);
        Ok(())
    }
}

impl SeedableRng for IncOneRng {
    type Seed = [u8; 1];

    fn from_seed(seed: [u8; 1]) -> (r: Self)
        ensures
            r.x == seed[0],
    {
        IncOneRng { x: seed[0] }
    }
}

/// The one-byte seed that belongs to `state`: the low byte of the PCG32 output after one step from
/// `state`, which is the upper part of the new state, folded by exclusive or and rotated right by
/// its top five bits.
pub open spec fn one_byte_seed(state: u64) -> u8 {
    let s = ((state * 6364136223846793005 + 11634580027462260723)
        % 0x1_0000_0000_0000_0000) as u64;
    let folded = (((s >> 18) ^ s) >> 27) as u32;
    let rot = (s >> 59) as u32;
    ((folded >> rot) | (folded << ((32 - rot) % 32))) as u8
}

/// Calls the provided method `rand_core::SeedableRng::seed_from_u64`, which fills a seed with the
/// little-endian bytes of successive PCG32 outputs, starting from `state`, and hands it to
/// `from_seed`. The contract claims that for a seed of one byte this is the low byte of the first
/// output.
#[verifier::external_body]
fn seed_from_u64(state: u64) -> (r: IncOneRng)
    ensures
        r.x == one_byte_seed(state),
{
    IncOneRng::seed_from_u64(state)
}

/// The generator of a link direction whose configured seed is `seed`.
pub fn direction_rng(seed: u32) -> (r: IncOneRng)
    ensures
        r.x == one_byte_seed(seed as u64),
{
    seed_from_u64(seed as u64)
}

/// Removing whole multiples of 256 early does not change a sum modulo 256.
proof fn lemma_mod_sum(a: int, b: int)
    ensures
        (a % 256 + b) % 256 == (a + b) % 256,
{
}

/// The draws of an advanced generator are the later draws of the generator it came from.
pub proof fn lemma_stream_byte_after(x: u8, m: int, k: int)
    ensures
        stream_byte(advanced(x, m), k) == stream_byte(x, m + k),
        advanced(advanced(x, m), k) == advanced(x, m + k),
{
    lemma_mod_sum(x + m, 1 + k);
    lemma_mod_sum(x + m, k);
}

/// Drawing `m` bytes and then `n` more yields the same bytes as drawing `m + n` at once.
pub proof fn law_stream_concatenates(x: u8, m: nat, n: nat)
    ensures
        stream(x, m + n) == stream(x, m) + stream(advanced(x, m as int), n),
        advanced(x, (m + n) as int) == advanced(advanced(x, m as int), n as int),
{
    let whole = stream(x, m + n);
    let parts = stream(x, m) + stream(advanced(x, m as int), n);
    assert forall|i: int| 0 <= i < m + n implies whole[i] == parts[i] by {
        if i >= m {
            lemma_stream_byte_after(x, m as int, i - m);
        }
    }
    assert(whole =~= parts);
    lemma_stream_byte_after(x, m as int, n as int);
}

/// The output repeats after 256 draws, and no byte occurs twice in fewer.
pub proof fn law_stream_has_period_256(x: u8, j: int, k: int)
    ensures
        stream_byte(x, j) == stream_byte(x, k) <==> (j - k) % 256 == 0,
{
}

/// Every draw is one more than the one before it, and zero after 255; the first one follows the
/// state that the generator starts in, and the state is always the last draw.
pub proof fn law_draws_count_up(x: u8, k: nat)
    ensures
        stream_byte(x, 0) == (if x == 255 { 0 } else { x + 1 }),
        stream_byte(x, k + 1int) == (if stream_byte(x, k as int) == 255 {
            0
        } else {
            stream_byte(x, k as int) + 1
        }),
        advanced(x, 0) == x,
        advanced(x, k + 1int) == stream_byte(x, k as int),
        stream(x, k).len() == k,
        forall|i: int| 0 <= i < k ==> #[trigger] stream(x, k)[i] == stream_byte(x, i),
{
    lemma_mod_sum(x + 1 + k, 1);
}

} // verus!
