use vstd::prelude::*;

verus! {

/// One step of the xorshift recurrence.
pub open spec fn xorshift(x: u32) -> u32 {
    let a = x ^ ((x << 13u32) as u32);
    let b = a ^ (a >> 17u32);
    b ^ ((b << 5u32) as u32)
}

/// The state after `n` steps from `seed`.
pub open spec fn state_after(seed: u32, n: nat) -> u32
    decreases n,
{
    if n == 0 {
        seed
    } else {
        xorshift(state_after(seed, (n - 1) as nat))
    }
}

/// The `n`-th value (counting from 0) that a sequencer seeded with `seed`
/// draws below `max`.
pub open spec fn draw_of(seed: u32, n: nat, max: nat) -> nat {
    (state_after(seed, n + 1) as nat) % max
}

/// Seed derived from a clock reading: `millis * 1664525 + 1013904223`,
/// modulo 2^32.
pub open spec fn seed_of(millis: u32) -> u32 {
    ((millis as int * 1664525 + 1013904223) % 0x1_0000_0000) as u32
}

/// Mixes a clock reading into a seed, so that small readings do not give
/// degenerate early sequences.
pub fn seed_from_clock(millis: u32) -> (r: u32)
    ensures
        r == seed_of(millis),
{
    let r = millis.wrapping_mul(1664525).wrapping_add(1013904223);
    assert(r == seed_of(millis)) by (nonlinear_arith)
        requires
            r == ((((millis as int * 1664525) % 0x1_0000_0000) + 1013904223) % 0x1_0000_0000),
    {
    }
    r
}

/// Deterministic piece sequencer: a 32-bit xorshift generator.
pub struct Rng {
    state: u32,
}

impl View for Rng {
    type V = u32;

    closed spec fn view(&self) -> u32 {
        self.state
    }
}

impl Rng {
    /// A sequencer whose state is `seed`. A zero seed stays zero for ever.
    pub fn new(seed: u32) -> (r: Rng)
        ensures
            r@ == seed,
    {
        Rng { state: seed }
    }

    /// Advances the state by one step and returns the new state.
    pub fn next_u32(&mut self) -> (r: u32)
        ensures
            r == xorshift(old(self)@),
            final(self)@ == r,
    {
        let mut x = self.state;
        x ^= x << 13;
        x ^= x >> 17;
        x ^= x << 5;
        self.state = x;
        x
    }

    /// Advances the state by one step and returns the new state modulo `max`.
    pub fn next_usize(&mut self, max: usize) -> (r: usize)
        requires
            max > 0,
        ensures
            r as nat == (xorshift(old(self)@) as nat) % (max as nat),
            final(self)@ == xorshift(old(self)@),
    {
        (self.next_u32() as usize) % max
    }
}

/// Two sequencers built from the same seed draw the same value at every
/// position of their sequences.
pub proof fn lemma_same_seed_same_sequence(seed_a: u32, seed_b: u32, max: nat)
    requires
        seed_a == seed_b,
        max > 0,
    ensures
        forall|n: nat| #[trigger] draw_of(seed_a, n, max) == draw_of(seed_b, n, max),
        forall|n: nat| #[trigger] state_after(seed_a, n) == state_after(seed_b, n),
{
}

/// A zero state is a fixed point of the recurrence.
pub proof fn lemma_zero_seed_fixed(n: nat)
    ensures
        state_after(0, n) == 0,
    decreases n,
{
    if n > 0 {
        lemma_zero_seed_fixed((n - 1) as nat);
        assert(xorshift(0) == 0) by (bit_vector);
    }
}

} // verus!
