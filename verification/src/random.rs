//! Where the providers get their chance from.
//!
//! By default it comes from the random number generator of the running
//! thread. For runs that must come out the same each time, a source that
//! counts up from zero takes its place.

use rand::rngs::mock::StepRng;
use rand::rngs::ThreadRng;
use rand::seq::SliceRandom;
use rand::Rng;
use vstd::prelude::*;

verus! {

/// The random number generator of the running thread (`rand`).
#[verifier::external_type_specification]
#[verifier::external_body]
pub struct ExThreadRng(ThreadRng);

/// The generator of `rand` that counts up in equal steps.
#[verifier::external_type_specification]
#[verifier::external_body]
pub struct ExStepRng(StepRng);

/// Which source of chance to use.
#[derive(Debug, Clone, Copy, PartialEq, Eq, Structural)]
pub enum Randomness {
    /// The random number generator of the running thread.
    Process,
    /// The numbers 0, 1, 2 and so on, in this order: the same in every run.
    Stepped,
}

/// The generator behind a source of chance.
enum Generator {
    Process(ThreadRng),
    Stepped(StepRng),
}

/// A source of chance.
///
/// Its generator is its own: `new` makes it, and nothing else can, so a
/// counting source always starts at zero and goes up by one. On such a
/// generator, and on that of the running thread, every draw comes to an
/// end.
pub struct RandomSource {
    generator: Generator,
}

/// The generator of the running thread, by `rand::thread_rng`. Nothing is
/// claimed of it.
#[verifier::external_body]
fn thread_rng() -> ThreadRng {
    rand::thread_rng()
}

/// A counting generator, by `StepRng::new`. Nothing is claimed of it.
/// `RandomSource::new` alone calls it, with a start of zero and a step of
/// one.
#[verifier::external_body]
fn step_rng(initial: u64, increment: u64) -> StepRng {
    StepRng::new(initial, increment)
}

/// A number from `min` to `max`, by `Rng::gen_range` on the closed range
/// of the two. Trusted: the number lies in that range. The range must not
/// be empty, or `gen_range` panics. `gen_range` draws until a draw fits: it
/// is called on the generators of `RandomSource::new` alone, which give a
/// draw that fits.
#[verifier::external_body]
fn number_from<R: Rng>(rng: &mut R, min: i64, max: i64) -> (n: i64)
    requires
        min <= max,
    ensures
        min <= n <= max,
{
    rng.gen_range(min..=max)
}

/// A number below `bound`, by `Rng::gen_range` on the range from zero up
/// to the bound. Trusted: the number is below the bound. The bound must
/// not be zero, or `gen_range` panics. `gen_range` draws until a draw fits:
/// it is called on the generators of `RandomSource::new` alone, which give
/// a draw that fits.
#[verifier::external_body]
fn number_below<R: Rng>(rng: &mut R, bound: usize) -> (n: usize)
    requires
        bound > 0,
    ensures
        n < bound,
{
    rng.gen_range(0..bound)
}

/// One of the items, by `SliceRandom::choose`. Trusted: the result is one
/// of the items, and there is none only where there are no items. `choose`
/// draws until a draw fits: it is called on the generators of
/// `RandomSource::new` alone, which give a draw that fits.
#[verifier::external_body]
fn one_of<'a, R: Rng, T>(rng: &mut R, items: &'a [T]) -> (chosen: Option<&'a T>)
    ensures
        items@.len() == 0 ==> chosen is None,
        items@.len() > 0 ==> chosen is Some && items@.contains(*chosen->Some_0),
{
    items.choose(rng)
}

impl RandomSource {
    /// Which kind of source this is.
    pub closed spec fn kind(&self) -> Randomness {
        match self.generator {
            Generator::Process(_) => Randomness::Process,
            Generator::Stepped(_) => Randomness::Stepped,
        }
    }

    /// A source of the given kind. A counting source starts at zero and
    /// goes up by one.
    pub fn new(kind: Randomness) -> (source: RandomSource)
        ensures
            source.kind() == kind,
    {
        match kind {
            Randomness::Process => RandomSource { generator: Generator::Process(thread_rng()) },
            Randomness::Stepped => RandomSource { generator: Generator::Stepped(step_rng(0, 1)) },
        }
    }

    /// A number from `min` to `max`, both of which it may be.
    pub fn int_between(&mut self, min: i64, max: i64) -> (n: i64)
        requires
            min <= max,
        ensures
            min <= n <= max,
            final(self).kind() == old(self).kind(),
    {
        match &mut self.generator {
            Generator::Process(rng) => number_from(rng, min, max),
            Generator::Stepped(rng) => number_from(rng, min, max),
        }
    }

    /// A number from zero up to `bound`, which it is not.
    pub fn index_below(&mut self, bound: usize) -> (n: usize)
        requires
            bound > 0,
        ensures
            n < bound,
            final(self).kind() == old(self).kind(),
    {
        match &mut self.generator {
            Generator::Process(rng) => number_below(rng, bound),
            Generator::Stepped(rng) => number_below(rng, bound),
        }
    }

    /// One of the items, or none where there are no items.
    pub fn pick<'a, T>(&mut self, items: &'a [T]) -> (chosen: Option<&'a T>)
        ensures
            items@.len() == 0 ==> chosen is None,
            items@.len() > 0 ==> chosen is Some && items@.contains(*chosen->Some_0),
            final(self).kind() == old(self).kind(),
    {
        match &mut self.generator {
            Generator::Process(rng) => one_of(rng, items),
            Generator::Stepped(rng) => one_of(rng, items),
        }
    }
}

} // verus!
