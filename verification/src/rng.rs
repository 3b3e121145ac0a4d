//! Xorshift pseudo-random numbers.

use vstd::prelude::*;

verus! {

/// One round of the 32-bit xorshift generator: shift left 13, right 17,
/// left 5, each folded into the state with exclusive or.
pub open spec fn xorshift32(state: u32) -> u32 {
    let a = state ^ (state << 13u32);
    let b = a ^ (a >> 17u32);
    b ^ (b << 5u32)
}

/// The state reached from `state` after `n` draws.
pub open spec fn xorshift32_iter(state: u32, n: nat) -> u32
    decreases n,
{
    if n == 0 {
        state
    } else {
        xorshift32(xorshift32_iter(state, (n - 1) as nat))
    }
}

/// Zero is the one fixed point of the generator, and no other state leads to it.
pub proof fn lemma_xorshift32_zero(state: u32)
    ensures
        xorshift32(state) == 0 <==> state == 0,
{
    assert((xorshift32(state) == 0) == (state == 0)) by (bit_vector);
}

/// Different states lead to different states: the generator only permutes
/// its state space, so every state lies on a cycle.
pub proof fn lemma_xorshift32_injective(first: u32, second: u32)
    requires
        xorshift32(first) == xorshift32(second),
    ensures
        first == second,
{
    let a1 = first ^ (first << 13u32);
    let a2 = second ^ (second << 13u32);
    let b1 = a1 ^ (a1 >> 17u32);
    let b2 = a2 ^ (a2 >> 17u32);
    assert(b1 == b2) by (bit_vector)
        requires
            b1 ^ (b1 << 5u32) == b2 ^ (b2 << 5u32),
    ;
    assert(a1 == a2) by (bit_vector)
        requires
            a1 ^ (a1 >> 17u32) == a2 ^ (a2 >> 17u32),
    ;
    assert(first == second) by (bit_vector)
        requires
            first ^ (first << 13u32) == second ^ (second << 13u32),
    ;
}

/// A generator seeded with a non-zero value never reaches zero.
pub proof fn lemma_xorshift32_iter_nonzero(seed: u32, n: nat)
    requires
        seed != 0,
    ensures
        xorshift32_iter(seed, n) != 0,
    decreases n,
{
    if n > 0 {
        lemma_xorshift32_iter_nonzero(seed, (n - 1) as nat);
        lemma_xorshift32_zero(xorshift32_iter(seed, (n - 1) as nat));
    }
}

/// A seedable generator whose whole state is one 32-bit word.
#[derive(Clone, Copy, Debug, PartialEq, Eq)]
pub struct Rng(pub u32);

impl Rng {
    /// The current state, which is also the value drawn last.
    pub open spec fn state(&self) -> u32 {
        self.0
    }

    /// A generator is usable when its state is not zero.
    pub open spec fn wf(&self) -> bool {
        self.0 != 0
    }

    /// A generator that starts from `seed`. Zero is no seed: the generator
    /// would yield zero for ever.
    pub fn new(seed: u32) -> (rng: Self)
        requires
            seed != 0,
        ensures
            rng.state() == seed,
            rng.wf(),
    {
        Self(seed)
    }

    /// Draws the next value, which is also the new state.
    pub fn next(&mut self) -> (value: u32)
        ensures
            value == xorshift32(old(self).state()),
            final(self).state() == value,
            old(self).wf() ==> final(self).wf(),
    {
        proof {
            lemma_xorshift32_zero(self.0);
        }
        self.0 = self.0 ^ (self.0 << 13);
        self.0 = self.0 ^ (self.0 >> 17);
        self.0 = self.0 ^ (self.0 << 5);
        self.0
    }

    /// Draws `count` values in a row.
    pub fn take(&mut self, count: usize) -> (values: Vec<u32>)
        ensures
            values@.len() == count,
            forall|i: int|
                0 <= i < count ==> #[trigger] values@[i] == xorshift32_iter(
                    old(self).state(),
                    (i + 1) as nat,
                ),
            final(self).state() == xorshift32_iter(old(self).state(), count as nat),
            old(self).wf() ==> final(self).wf(),
    {
        let mut values: Vec<u32> = Vec::new();
        let mut i: usize = 0;
        while i < count
            invariant
                i <= count,
                values@.len() == i,
                self.state() == xorshift32_iter(old(self).state(), i as nat),
                old(self).wf() ==> self.wf(),
                forall|k: int|
                    0 <= k < i ==> #[trigger] values@[k] == xorshift32_iter(
                        old(self).state(),
                        (k + 1) as nat,
                    ),
            decreases count - i,
        {
            let value = self.next();
            values.push(value);
            i += 1;
        }
        values
    }
}

/// Equal seeds give equal outputs, draw for draw: what a generator yields
/// depends on its seed and on nothing else.
pub proof fn lemma_outputs_reproducible(first: Rng, second: Rng, draws: nat)
    requires
        first.state() == second.state(),
    ensures
        xorshift32_iter(first.state(), draws) == xorshift32_iter(second.state(), draws),
{
}

} // verus!
