//! The per-worker pseudo-random stream: a 64-bit linear congruential
//! generator that picks offsets and fills write buffers.

use vstd::prelude::*;

verus! {

/// Multiplier of the linear congruential step.
pub const LCG_MULTIPLIER: u64 = 6364136223846793005;

/// Number of distinct values of a `u64`.
pub open spec fn word_range() -> nat {
    0x1_0000_0000_0000_0000nat
}

/// One step of the stream: `state * LCG_MULTIPLIER + 1`, modulo 2^64.
pub open spec fn next_state(state: u64) -> u64 {
    ((state as nat * LCG_MULTIPLIER as nat + 1) % word_range()) as u64
}

/// The state reached after `n` steps from `seed`.
pub open spec fn nth_state(seed: u64, n: nat) -> u64
    decreases n,
{
    if n == 0 {
        seed
    } else {
        next_state(nth_state(seed, (n - 1) as nat))
    }
}

/// The bytes that `n` successive draws give, each the draw modulo 256.
pub open spec fn stream_bytes(seed: u64, n: nat) -> Seq<u8> {
    Seq::new(n, |k: int| (nth_state(seed, (k + 1) as nat) % 256) as u8)
}

/// Advances the stream by one step and returns the new state.
pub fn simple_prng(state: &mut u64) -> (r: u64)
    ensures
        r == next_state(*old(state)),
        *final(state) == r,
{
    let s = *state;
    let product = s.wrapping_mul(LCG_MULTIPLIER);
    proof {
        let p = s as nat * LCG_MULTIPLIER as nat;
        assert(product as nat == p % word_range());
        assert((p + 1) % word_range() == ((p % word_range()) + 1) % word_range()) by {
            vstd::arithmetic::div_mod::lemma_add_mod_noop(p as int, 1, word_range() as int);
        }
    }
    *state = product.wrapping_add(1);
    *state
}

/// Fills `buf` with successive draws of the stream, one byte (the draw
/// modulo 256) per draw.
pub fn fill_random(state: &mut u64, buf: &mut Vec<u8>)
    ensures
        final(buf)@ == stream_bytes(*old(state), old(buf)@.len()),
        *final(state) == nth_state(*old(state), old(buf)@.len()),
{
    let ghost seed = *state;
    let n = buf.len();
    let mut i: usize = 0;
    while i < n
        invariant
            n == buf@.len(),
            i <= n,
            *state == nth_state(seed, i as nat),
            forall|k: int| 0 <= k < i ==> buf@[k] == (nth_state(seed, (k + 1) as nat) % 256) as u8,
        decreases n - i,
    {
        let x = simple_prng(state);
        buf.set(i, (x % 256) as u8);
        i = i + 1;
    }
    assert(buf@ =~= stream_bytes(seed, n as nat));
}

/// Stepping `a` times and then `b` times is stepping `a + b` times.
pub proof fn lemma_nth_state_add(seed: u64, a: nat, b: nat)
    ensures
        nth_state(seed, a + b) == nth_state(nth_state(seed, a), b),
    decreases b,
{
    if b > 0 {
        lemma_nth_state_add(seed, a, (b - 1) as nat);
        assert(nth_state(seed, a + b) == next_state(nth_state(seed, (a + b - 1) as nat)));
    }
}

/// A stream reseeded with the seed of an earlier fill gives back exactly the
/// bytes that the fill wrote: the bytes depend on the seed and the length
/// alone, a longer fill from the same seed begins with them, and it goes on
/// with the bytes of the stream from the state where the shorter fill stopped.
pub proof fn lemma_reseeded_stream_repeats(seed: u64, n: nat, m: nat)
    ensures
        stream_bytes(seed, n).len() == n,
        stream_bytes(seed, n + m).subrange(0, n as int) == stream_bytes(seed, n),
        stream_bytes(seed, n + m) == stream_bytes(seed, n) + stream_bytes(nth_state(seed, n), m),
{
    assert(stream_bytes(seed, n + m).subrange(0, n as int) =~= stream_bytes(seed, n));
    assert forall|k: int| n <= k < n + m implies #[trigger] stream_bytes(seed, n + m)[k]
        == stream_bytes(nth_state(seed, n), m)[k - n] by {
        lemma_nth_state_add(seed, n, (k - n + 1) as nat);
    }
    assert(stream_bytes(seed, n + m) =~= stream_bytes(seed, n) + stream_bytes(
        nth_state(seed, n),
        m,
    ));
}

} // verus!
