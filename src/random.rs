//! Random draws from the thread-local generator of `rand`, and a
//! quasi-random proc counter built on them.
use vstd::prelude::*;
use rand::Rng;

verus! {

/// Relies on `rand::Rng::gen_ratio` on `rand::thread_rng()`: true with chance
/// `numerator / denominator`; never with a numerator of 0, always with a
/// numerator equal to the denominator. It panics on a zero denominator or a
/// numerator above it, which `requires` leaves out.
#[verifier::external_body]
fn gen_ratio(numerator: u32, denominator: u32) -> (r: bool)
    requires
        0 < denominator,
        numerator <= denominator,
    ensures
        numerator == 0 ==> !r,
        numerator == denominator ==> r,
{
    rand::thread_rng().gen_ratio(numerator, denominator)
}

/// Relies on `rand::Rng::gen_range` on `rand::thread_rng()` for `i128`: a
/// value in `[low, high)`. It panics when `low >= high`, which `requires`
/// leaves out.
#[verifier::external_body]
fn gen_range(low: i128, high: i128) -> (r: i128)
    requires
        low < high,
    ensures
        low <= r < high,
{
    rand::thread_rng().gen_range(low, high)
}

/// Thousandths that make a certainty.
pub const PER_MILLE: u32 = 1000;

/// A thin front to the thread-local random generator.
pub struct RNG;

impl RNG {
    /// True with a chance of `p` thousandths: never for 0, always for 1000.
    pub fn test(p: u32) -> (r: bool)
        requires
            p <= PER_MILLE,
        ensures
            p == 0 ==> !r,
            p == PER_MILLE ==> r,
    {
        gen_ratio(p, PER_MILLE)
    }

    /// A value in `[min, max]`, both ends included.
    pub fn i32_between(min: i32, max: i32) -> (r: i32)
        requires
            min <= max,
        ensures
            min <= r <= max,
    {
        let r = gen_range(min as i128, max as i128 + 1);
        r as i32
    }

    /// A value in `[min, max)`, the upper end excluded.
    pub fn usize_between(min: usize, max: usize) -> (r: usize)
        requires
            min < max,
        ensures
            min <= r < max,
    {
        let r = gen_range(min as i128, max as i128);
        r as usize
    }
}

/// A quasi-random proc: each miss raises the chance of the next try by
/// `increment`, a hit resets it. Chances are in thousandths.
pub struct QRNG {
    pub initial: u32,
    pub increment: u32,
    pub maximum: u32,
    pub unsuccessful: u32,
}

/// The chance of the next try after `misses` misses: `initial` raised by
/// `increment` per miss, capped at `maximum`, and at most a certainty.
pub open spec fn proc_chance(initial: int, increment: int, maximum: int, misses: int) -> int {
    let raised = initial + misses * increment;
    let capped = if raised < maximum {
        raised
    } else {
        maximum
    };
    if capped > PER_MILLE {
        PER_MILLE as int
    } else {
        capped
    }
}

impl QRNG {
    /// The misses since the last hit.
    pub open spec fn misses(&self) -> nat {
        self.unsuccessful as nat
    }

    pub fn new() -> (r: Self)
        ensures
            r.initial == 100,
            r.increment == 50,
            r.maximum == 400,
            r.misses() == 0,
    {
        QRNG { initial: 100, increment: 50, maximum: 400, unsuccessful: 0 }
    }

    /// The chance, in thousandths, that the next try procs.
    pub fn chance(&self) -> (r: u32)
        ensures
            r == proc_chance(
                self.initial as int,
                self.increment as int,
                self.maximum as int,
                self.misses() as int,
            ),
    {
        proof {
            assert(self.unsuccessful * self.increment <= 0xFFFF_FFFF * 0xFFFF_FFFFint)
                by (nonlinear_arith)
                requires self.unsuccessful <= 0xFFFF_FFFF, self.increment <= 0xFFFF_FFFF;
        }
        let raised = self.initial as u64 + self.unsuccessful as u64 * self.increment as u64;
        let capped = if raised < self.maximum as u64 {
            raised
        } else {
            self.maximum as u64
        };
        if capped > PER_MILLE as u64 {
            PER_MILLE
        } else {
            capped as u32
        }
    }

    /// Notes the outcome of a try: a hit resets the misses, a miss adds one
    /// (the count stops at its largest value).
    pub fn record(&mut self, success: bool)
        ensures
            final(self).initial == old(self).initial,
            final(self).increment == old(self).increment,
            final(self).maximum == old(self).maximum,
            success ==> final(self).misses() == 0,
            !success && old(self).misses() < u32::MAX ==> final(self).misses() == old(self).misses()
                + 1,
            !success && old(self).misses() == u32::MAX ==> final(self).misses() == old(
                self,
            ).misses(),
    {
        if success {
            self.unsuccessful = 0;
        } else if self.unsuccessful < u32::MAX {
            self.unsuccessful = self.unsuccessful + 1;
        }
    }

    /// Tries once at the current chance; true if it procs, and the counter
    /// moves on.
    pub fn test(&mut self) -> (r: bool)
        ensures
            final(self).initial == old(self).initial,
            final(self).increment == old(self).increment,
            final(self).maximum == old(self).maximum,
            r ==> final(self).misses() == 0,
            proc_chance(
                old(self).initial as int,
                old(self).increment as int,
                old(self).maximum as int,
                old(self).misses() as int,
            ) == PER_MILLE ==> r,
            proc_chance(
                old(self).initial as int,
                old(self).increment as int,
                old(self).maximum as int,
                old(self).misses() as int,
            ) == 0 ==> !r,
            !r && old(self).misses() < u32::MAX ==> final(self).misses() == old(self).misses() + 1,
    {
        let p = self.chance();
        let success = RNG::test(p);
        self.record(success);
        success
    }
}

} // verus!
