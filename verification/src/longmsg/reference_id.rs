//! References for long messages.
//!
//! Best is one generator per account that lives as long as the account, so that its references
//! count up and never meet. Where every long message gets a splitter of its own, the seed
//! dispenser keeps the starting references of the generators apart, so that two long messages
//! to one phone are not joined by mistake.

use vstd::prelude::*;

verus! {

/// The distance between two seeds: a prime near the golden ratio of 2^32. It is odd, so that
/// the low 16 bits of the seeds run through all values before one comes again.
pub const SEED_STEP: u64 = 0x9E37_79B1;

/// Hands out starting values for generators. There is one for the whole process, with a base
/// that differs from one process to the next.
#[derive(Debug)]
pub struct SeedDispenser {
    base: u64,
    issued: u64,
}

/// The seed number `n` over a base.
pub open spec fn seed(base: u64, n: int) -> u64 {
    ((base + n * SEED_STEP) % 0x1_0000_0000_0000_0000) as u64
}

/// The low 16 bits of a number.
pub open spec fn low16(n: u64) -> u16 {
    (n % 0x1_0000) as u16
}

impl SeedDispenser {
    /// The base of the seeds.
    pub closed spec fn base(&self) -> u64 {
        self.base
    }

    /// How many seeds have been handed out.
    pub closed spec fn issued(&self) -> u64 {
        self.issued
    }

    /// A dispenser over a base, such as the time at which the process started.
    pub fn new(base: u64) -> (seeds: Self)
        ensures
            seeds.base() == base,
            seeds.issued() == 0,
    {
        SeedDispenser { base, issued: 0 }
    }

    /// The next seed.
    pub fn next_seed(&mut self) -> (value: u64)
        ensures
            value == seed(old(self).base(), old(self).issued() as int),
            final(self).base() == old(self).base(),
            final(self).issued() == (old(self).issued() + 1) % 0x1_0000_0000_0000_0000,
    {
        let n: u64 = self.issued;
        self.issued = n.wrapping_add(1);
        let value: u64 = self.base.wrapping_add(n.wrapping_mul(SEED_STEP));
        proof {
            let product: int = n * SEED_STEP;
            vstd::arithmetic::div_mod::lemma_add_mod_noop(
                self.base as int,
                product,
                0x1_0000_0000_0000_0000,
            );
        }
        value
    }
}

/// Counts up references of 16 bits. The counter itself has 64 bits and wraps around.
#[derive(Debug)]
pub struct ReferenceIdGenerator {
    counter: u64,
}

impl ReferenceIdGenerator {
    /// The counter.
    pub closed spec fn counter(&self) -> u64 {
        self.counter
    }

    /// A generator that starts at the next seed.
    pub fn new(seeds: &mut SeedDispenser) -> (generator: Self)
        ensures
            generator.counter() == seed(old(seeds).base(), old(seeds).issued() as int),
            final(seeds).base() == old(seeds).base(),
            final(seeds).issued() == (old(seeds).issued() + 1) % 0x1_0000_0000_0000_0000,
    {
        ReferenceIdGenerator { counter: seeds.next_seed() }
    }

    /// A generator that starts at a value.
    pub fn with_value(value: u64) -> (generator: Self)
        ensures
            generator.counter() == value,
    {
        ReferenceIdGenerator { counter: value }
    }

    /// The next reference: the low 16 bits of the counter, which then counts on.
    pub fn next_reference_id(&mut self) -> (id: u16)
        ensures
            id == low16(old(self).counter()),
            final(self).counter() == (old(self).counter() + 1) % 0x1_0000_0000_0000_0000,
    {
        let id: u16 = (self.counter % 0x1_0000) as u16;
        self.counter = self.counter.wrapping_add(1);
        id
    }

    /// The reference that comes next.
    pub fn current(&self) -> (id: u16)
        ensures
            id == low16(self.counter()),
    {
        (self.counter % 0x1_0000) as u16
    }

    /// Starts again at zero.
    pub fn reset(&mut self)
        ensures
            final(self).counter() == 0,
    {
        self.counter = 0;
    }
}

proof fn lemma_low16_of_seed(base: u64, n: int)
    requires
        n >= 0,
    ensures
        low16(seed(base, n)) == (base + n * SEED_STEP) % 0x1_0000,
{
    let x = base + n * SEED_STEP;
    assert(x % 0x1_0000_0000_0000_0000 % 0x1_0000 == x % 0x1_0000) by {
        vstd::arithmetic::div_mod::lemma_mod_mod(x, 0x1_0000, 0x1_0000_0000_0000);
    }
}

/// Generators that start at different seeds of one dispenser start at different references, as
/// long as they are not 65536 seeds or more apart.
pub proof fn law_distinct_starts(base: u64, i: int, j: int)
    requires
        0 <= i < j < i + 0x1_0000,
    ensures
        low16(seed(base, i)) != low16(seed(base, j)),
{
    lemma_low16_of_seed(base, i);
    lemma_low16_of_seed(base, j);
    let x = base + i * SEED_STEP;
    let y = base + j * SEED_STEP;
    let d = j - i;
    if x % 0x1_0000 == y % 0x1_0000 {
        let k = y / 0x1_0000 - x / 0x1_0000;
        assert(d * SEED_STEP == y - x) by (nonlinear_arith)
            requires
                x == base + i * SEED_STEP,
                y == base + j * SEED_STEP,
                d == j - i,
        ;
        assert(d * SEED_STEP == k * 0x1_0000);
        // 12113 is the inverse of the step modulo 65536.
        assert(d == 0x1_0000 * (k * 12113 - d * 490618597)) by (nonlinear_arith)
            requires
                d * SEED_STEP == k * 0x1_0000,
                SEED_STEP == 0x9E37_79B1,
        ;
        assert(false) by (nonlinear_arith)
            requires
                d == 0x1_0000 * (k * 12113 - d * 490618597),
                0 < d < 0x1_0000,
        ;
    }
}

/// Each reference is one more than the reference before it, and after 65535 comes 0.
pub proof fn law_sequential(counter: u64)
    ensures
        low16(((counter + 1) % 0x1_0000_0000_0000_0000) as u64) == (low16(counter) + 1) % 0x1_0000,
{
    let x = counter + 1;
    assert(x % 0x1_0000_0000_0000_0000 % 0x1_0000 == x % 0x1_0000) by {
        vstd::arithmetic::div_mod::lemma_mod_mod(x, 0x1_0000, 0x1_0000_0000_0000);
    }
}

/// Seeds start at the base and go on by 2654435761 each; a reference is the rest by 65536.
pub proof fn law_seeds_in_numbers(base: u64, n: int, counter: u64)
    requires
        0 <= n,
    ensures
        seed(base, 0) == base,
        seed(base, n) == (base + n * 2654435761) % 0x1_0000_0000_0000_0000,
        low16(counter) == counter % 65536,
{
}

} // verus!
