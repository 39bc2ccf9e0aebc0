use vstd::prelude::*;

verus! {

/// One round of 32-bit xorshift (shifts 13, 17, 5).
pub open spec fn xorshift(s: u32) -> u32 {
    let a = s ^ ((s << 13u32) as u32);
    let b = a ^ (a >> 17u32);
    b ^ ((b << 5u32) as u32)
}

/// The state after `n` rounds starting from `s`.
pub open spec fn xorshift_iter(s: u32, n: nat) -> u32
    decreases n,
{
    if n == 0 {
        s
    } else {
        xorshift(xorshift_iter(s, (n - 1) as nat))
    }
}

/// Deterministic xorshift stream used for world generation.
pub struct Rng {
    state: u32,
}

impl View for Rng {
    type V = u32;

    closed spec fn view(&self) -> u32 {
        self.state
    }
}

impl Rng {
    pub fn new(seed: u32) -> (r: Self)
        ensures
            r@ == seed,
    {
        Self { state: seed }
    }

    /// Advances the stream by one round and reduces the new state below `max`.
    pub fn range(&mut self, max: u32) -> (r: u32)
        requires
            max > 0,
        ensures
            final(self)@ == xorshift(old(self)@),
            r == xorshift(old(self)@) % max,
    {
        self.state = self.state ^ (self.state << 13u32);
        self.state = self.state ^ (self.state >> 17u32);
        self.state = self.state ^ (self.state << 5u32);
        self.state % max
    }
}

} // verus!
