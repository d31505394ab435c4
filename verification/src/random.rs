//! A seeded Mersenne Twister (MT19937) producing 32-bit words.
//!
//! The generator is seeded the way the reference implementation seeds from a key array
//! that holds one word. Every function is described by a mathematical model of the
//! 624-word state, so equal states always produce equal draws.

use vstd::prelude::*;
use vstd::wrapping::u32_specs::{wrapping_add, wrapping_mul, wrapping_sub};

verus! {

/// Number of words in the generator's state.
pub const N: usize = 624;

/// Distance between a word and the word it is recombined with.
pub const M: usize = 397;

pub const UPPER_MASK: u32 = 0x8000_0000;

pub const LOWER_MASK: u32 = 0x7fff_ffff;

pub const MATRIX_A: u32 = 0x9908_b0df;

pub const TEMPER_B: u32 = 0x9d2c_5680;

pub const TEMPER_C: u32 = 0xefc6_0000;

pub const INIT_MULTIPLIER: u32 = 1812433253;

pub const KEY_MULTIPLIER_1: u32 = 1664525;

pub const KEY_MULTIPLIER_2: u32 = 1566083941;

/// Seed of the linear pass that precedes the mixing in of the caller's seed.
pub const KEY_BASE_SEED: u32 = 19650218;

/// Seed used when a draw finds the cursor beyond the end of the state.
pub const DEFAULT_SEED: u32 = 5489;

/// `x ^ (x >> 30)`, the scrambling applied to the previous word in every seeding pass.
pub open spec fn fold30(x: u32) -> u32 {
    x ^ (x >> 30)
}

/// Word `k` of the state that the linear seeding pass builds from `seed`.
pub open spec fn init_word(seed: u32, k: nat) -> u32
    decreases k,
{
    if k == 0 {
        seed
    } else {
        wrapping_add(
            wrapping_mul(fold30(init_word(seed, (k - 1) as nat)), INIT_MULTIPLIER),
            k as u32,
        )
    }
}

/// The state that the linear seeding pass builds from `seed`.
pub open spec fn init_state(seed: u32) -> Seq<u32> {
    Seq::new(N as nat, |k: int| init_word(seed, k as nat))
}

/// Moves the seeding cursor on by one word. On reaching the end of the state the last word
/// is merged into the first, and the cursor returns to the second word.
pub open spec fn advance(mt: Seq<u32>, i: int) -> (Seq<u32>, int) {
    if i + 1 >= N {
        (mt.update(0, mt[N - 1]), 1)
    } else {
        (mt, i + 1)
    }
}

/// One round of the first keyed pass at cursor `st.1`: the word is mixed with its
/// predecessor and the seed is added.
pub open spec fn key_step_1(st: (Seq<u32>, int), seed: u32) -> (Seq<u32>, int) {
    let (mt, i) = st;
    let word = wrapping_add(mt[i] ^ wrapping_mul(fold30(mt[i - 1]), KEY_MULTIPLIER_1), seed);
    advance(mt.update(i, word), i)
}

/// `rounds` rounds of the first keyed pass, starting at the second word of `mt`.
pub open spec fn key_pass_1(mt: Seq<u32>, seed: u32, rounds: nat) -> (Seq<u32>, int)
    decreases rounds,
{
    if rounds == 0 {
        (mt, 1)
    } else {
        key_step_1(key_pass_1(mt, seed, (rounds - 1) as nat), seed)
    }
}

/// One round of the second keyed pass at cursor `st.1`: the word is mixed with its
/// predecessor and its own index is subtracted.
pub open spec fn key_step_2(st: (Seq<u32>, int)) -> (Seq<u32>, int) {
    let (mt, i) = st;
    let word = wrapping_sub(mt[i] ^ wrapping_mul(fold30(mt[i - 1]), KEY_MULTIPLIER_2), i as u32);
    advance(mt.update(i, word), i)
}

/// `rounds` rounds of the second keyed pass, starting from state and cursor `start`.
pub open spec fn key_pass_2(start: (Seq<u32>, int), rounds: nat) -> (Seq<u32>, int)
    decreases rounds,
{
    if rounds == 0 {
        start
    } else {
        key_step_2(key_pass_2(start, (rounds - 1) as nat))
    }
}

/// The state of a generator freshly seeded with `seed`.
pub open spec fn seeded_state(seed: u32) -> Seq<u32> {
    let first = key_pass_1(init_state(KEY_BASE_SEED), seed, N as nat);
    key_pass_2(first, (N - 1) as nat).0.update(0, UPPER_MASK)
}

/// The recombination of word `cur` with its successor `next` and the word `far`
/// that lies `M` positions ahead.
pub open spec fn twist_word(cur: u32, next: u32, far: u32) -> u32 {
    let a = (cur & UPPER_MASK) | (next & LOWER_MASK);
    far ^ (a >> 1) ^ (if a & 1 == 1 {
        MATRIX_A
    } else {
        0u32
    })
}

/// The state after the first `k` words of `mt` have been regenerated in place, in
/// ascending order. Indices wrap around the end of the state, so late words are
/// recombined with words that were regenerated before them.
pub open spec fn twist_prefix(mt: Seq<u32>, k: nat) -> Seq<u32>
    decreases k,
{
    if k == 0 {
        mt
    } else {
        let prev = twist_prefix(mt, (k - 1) as nat);
        let j = k - 1;
        prev.update(j, twist_word(prev[j], prev[(j + 1) % (N as int)], prev[(j + M) % (N as int)]))
    }
}

/// The state after a full regeneration of `mt`.
pub open spec fn twisted(mt: Seq<u32>) -> Seq<u32> {
    twist_prefix(mt, N as nat)
}

/// The tempering transform that turns a state word into an output word.
pub open spec fn temper(word: u32) -> u32 {
    let a = word ^ (word >> 11);
    let b = a ^ ((a << 7) & TEMPER_B);
    let c = b ^ ((b << 15) & TEMPER_C);
    c ^ (c >> 18)
}

/// The state from which the next word is taken when the generator holds `mt` with its
/// cursor at `i`: the state itself while the cursor is inside it, else its regeneration
/// (after reseeding with the default seed if the cursor lies beyond the end).
pub open spec fn draw_state(mt: Seq<u32>, i: int) -> Seq<u32> {
    if i > N {
        twisted(init_state(DEFAULT_SEED))
    } else if i == N {
        twisted(mt)
    } else {
        mt
    }
}

/// The position in `draw_state` of the next word.
pub open spec fn draw_index(i: int) -> int {
    if i >= N {
        0
    } else {
        i
    }
}

/// The next output word of a generator that holds `mt` with its cursor at `i`.
pub open spec fn draw_word(mt: Seq<u32>, i: int) -> u32 {
    temper(draw_state(mt, i)[draw_index(i)])
}

/// The first `n` output words of a generator that holds `mt` with its cursor at `i`.
pub open spec fn stream(mt: Seq<u32>, i: int, n: nat) -> Seq<u32>
    decreases n,
{
    if n == 0 {
        Seq::empty()
    } else {
        seq![draw_word(mt, i)] + stream(draw_state(mt, i), draw_index(i) + 1, (n - 1) as nat)
    }
}

/// Generators in the same state draw the same words: the words drawn are a function of
/// the state and the cursor, and so is the state that a draw leaves behind.
pub proof fn lemma_equal_states_draw_alike(a: Random, b: Random, n: nat)
    requires
        a.mt@ == b.mt@,
        a.i == b.i,
    ensures
        draw_word(a.mt@, a.i as int) == draw_word(b.mt@, b.i as int),
        draw_state(a.mt@, a.i as int) == draw_state(b.mt@, b.i as int),
        stream(a.mt@, a.i as int, n) == stream(b.mt@, b.i as int, n),
{
}

/// After a draw the cursor lies inside the state or at its end, so the state is never
/// reseeded again.
pub proof fn lemma_cursor_stays_in_range(i: int)
    requires
        0 <= i,
    ensures
        1 <= draw_index(i) + 1 <= N,
{
}

/// The generator: 624 state words and a cursor into them.
#[derive(Clone)]
pub struct Random {
    pub mt: [u32; N],
    pub i: usize,
}

impl Random {
    /// Creates a generator from a 32-bit seed. The cursor is left at the end of the state,
    /// so the first draw regenerates it.
    pub fn new(seed: u32) -> (random: Random)
        ensures
            random.mt@ == seeded_state(seed),
            random.i == N,
    {
        let mut random = Random { mt: [0u32; N], i: N };
        random.init(KEY_BASE_SEED);
        let mut i: usize = 1;
        let mut round: usize = 0;
        while round < N
            invariant
                round <= N,
                1 <= i < N,
                random.i == N,
                (random.mt@, i as int) == key_pass_1(init_state(KEY_BASE_SEED), seed, round as nat),
            decreases N - round,
        {
            let a: u32 = random.mt[i - 1] ^ (random.mt[i - 1] >> 30);
            random.mt[i] = (random.mt[i] ^ a.wrapping_mul(KEY_MULTIPLIER_1)).wrapping_add(seed);
            i += 1;
            if i >= N {
                random.mt[0] = random.mt[N - 1];
                i = 1;
            }
            round += 1;
        }
        let ghost first = key_pass_1(init_state(KEY_BASE_SEED), seed, N as nat);
        round = 0;
        while round < N - 1
            invariant
                round <= N - 1,
                1 <= i < N,
                random.i == N,
                (random.mt@, i as int) == key_pass_2(first, round as nat),
            decreases N - 1 - round,
        {
            let a: u32 = random.mt[i - 1] ^ (random.mt[i - 1] >> 30);
            random.mt[i] = (random.mt[i] ^ a.wrapping_mul(KEY_MULTIPLIER_2)).wrapping_sub(i as u32);
            i += 1;
            if i >= N {
                random.mt[0] = random.mt[N - 1];
                i = 1;
            }
            round += 1;
        }
        random.mt[0] = UPPER_MASK;
        random
    }

    /// Overwrites the state by the linear seeding pass from `seed` and puts the cursor at
    /// the end of the state.
    pub fn init(&mut self, seed: u32)
        ensures
            final(self).mt@ == init_state(seed),
            final(self).i == N,
    {
        self.mt[0] = seed;
        let mut i: usize = 1;
        while i < N
            invariant
                1 <= i <= N,
                forall|k: int| 0 <= k < i ==> self.mt@[k] == init_word(seed, k as nat),
            decreases N - i,
        {
            let a: u32 = self.mt[i - 1] ^ (self.mt[i - 1] >> 30);
            self.mt[i] = a.wrapping_mul(INIT_MULTIPLIER).wrapping_add(i as u32);
            i += 1;
        }
        self.i = N;
    }

    /// Draws the next 32-bit word. When the cursor has reached the end of the state, the
    /// whole state is regenerated first.
    pub fn u32(&mut self) -> (word: u32)
        ensures
            word == draw_word(old(self).mt@, old(self).i as int),
            final(self).mt@ == draw_state(old(self).mt@, old(self).i as int),
            final(self).i == draw_index(old(self).i as int) + 1,
    {
        let mut i: usize = self.i;
        if i >= N {
            if i > N {
                self.init(DEFAULT_SEED);
            }
            let ghost start = self.mt@;
            let mut j: usize = 0;
            while j < N - M
                invariant
                    j <= N - M,
                    self.mt@ == twist_prefix(start, j as nat),
                decreases N - M - j,
            {
                let a: u32 = (self.mt[j] & UPPER_MASK) | (self.mt[j + 1] & LOWER_MASK);
                let mag: u32 = if a & 1 == 1 {
                    MATRIX_A
                } else {
                    0
                };
                self.mt[j] = self.mt[j + M] ^ (a >> 1) ^ mag;
                j += 1;
            }
            while j < N - 1
                invariant
                    N - M <= j <= N - 1,
                    self.mt@ == twist_prefix(start, j as nat),
                decreases N - 1 - j,
            {
                let a: u32 = (self.mt[j] & UPPER_MASK) | (self.mt[j + 1] & LOWER_MASK);
                let mag: u32 = if a & 1 == 1 {
                    MATRIX_A
                } else {
                    0
                };
                self.mt[j] = self.mt[j + M - N] ^ (a >> 1) ^ mag;
                j += 1;
            }
            let a: u32 = (self.mt[N - 1] & UPPER_MASK) | (self.mt[0] & LOWER_MASK);
            let mag: u32 = if a & 1 == 1 {
                MATRIX_A
            } else {
                0
            };
            self.mt[N - 1] = self.mt[M - 1] ^ (a >> 1) ^ mag;
            i = 0;
        }
        let mut a: u32 = self.mt[i];
        a = a ^ (a >> 11);
        a = a ^ ((a << 7) & TEMPER_B);
        a = a ^ ((a << 15) & TEMPER_C);
        a = a ^ (a >> 18);
        self.i = i + 1;
        a
    }
}

} // verus!
