//! The source of the random choices that generation makes.

use vstd::prelude::*;

verus! {

/// The generator of the `rand` crate that the choices are drawn from.
#[verifier::external_type_specification]
#[verifier::external_body]
pub struct ExStdRng(rand::rngs::StdRng);

/// Whether a byte is an ASCII letter or digit.
pub open spec fn is_alphanumeric(b: u8) -> bool {
    (0x30 <= b <= 0x39) || (0x41 <= b <= 0x5A) || (0x61 <= b <= 0x7A)
}

/// Calls `SeedableRng::seed_from_u64` of `rand`; nothing is claimed of the
/// generator that comes back.
#[verifier::external_body]
fn seeded_rng(seed: u64) -> rand::rngs::StdRng {
    rand::SeedableRng::seed_from_u64(seed)
}

/// Calls `thread_rng` of `rand` and draws 64 bits from it with `Rng::gen`;
/// nothing is claimed of the number that comes back.
#[verifier::external_body]
fn thread_seed() -> u64 {
    rand::Rng::gen::<u64>(&mut rand::thread_rng())
}

/// Calls `Rng::gen_range` of `rand` on the inclusive range from `low` to
/// `high`. The call panics on an empty range, which the precondition
/// leaves out; what comes back lies in the range.
#[verifier::external_body]
fn draw_in_range(rng: &mut rand::rngs::StdRng, low: i128, high: i128) -> (r: i128)
    requires
        low <= high,
    ensures
        low <= r <= high,
{
    rand::Rng::gen_range(rng, low..=high)
}

/// Calls `Rng::sample` of `rand` with its distribution `Alphanumeric`,
/// which draws from the ASCII letters and digits.
#[verifier::external_body]
fn draw_alphanumeric(rng: &mut rand::rngs::StdRng) -> (r: u8)
    ensures
        is_alphanumeric(r),
{
    rand::Rng::sample(rng, rand::distributions::Alphanumeric)
}

/// Calls `Rng::gen` of `rand` for one byte; nothing is claimed of the byte
/// that comes back.
#[verifier::external_body]
fn draw_byte(rng: &mut rand::rngs::StdRng) -> u8 {
    rand::Rng::gen::<u8>(rng)
}

/// The dice that generation rolls. Dice made from one seed roll the same
/// numbers in the same order.
pub struct Dice {
    rng: rand::rngs::StdRng,
}

impl Dice {
    /// Dice that roll differently each time.
    pub fn new() -> Dice {
        Dice { rng: seeded_rng(thread_seed()) }
    }

    /// Dice that roll as the seed determines.
    pub fn seeded(seed: u64) -> Dice {
        Dice { rng: seeded_rng(seed) }
    }

    /// A number from `low` to `high`.
    pub fn number(&mut self, low: i128, high: i128) -> (r: i128)
        requires
            low <= high,
        ensures
            low <= r <= high,
    {
        draw_in_range(&mut self.rng, low, high)
    }

    /// A length from `low` to `high`.
    pub fn length(&mut self, low: usize, high: usize) -> (r: usize)
        requires
            low <= high,
        ensures
            low <= r <= high,
    {
        let n = draw_in_range(&mut self.rng, low as i128, high as i128);
        n as usize
    }

    /// An ASCII letter or digit.
    pub fn alphanumeric(&mut self) -> (r: u8)
        ensures
            is_alphanumeric(r),
    {
        draw_alphanumeric(&mut self.rng)
    }

    /// A byte.
    pub fn byte(&mut self) -> u8 {
        draw_byte(&mut self.rng)
    }
}

} // verus!
