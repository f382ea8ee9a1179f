//! A seeded random generator that keeps a ghost log of every number drawn
//! from it, so that proofs can speak of the draws a caller made.
use vstd::prelude::*;

use rand::rngs::SmallRng;
use rand::Rng;
use rand::SeedableRng;

verus! {

/// `rand`'s `SmallRng`, carried as an opaque value: nothing about its state
/// is visible to proofs.
#[verifier::external_type_specification]
#[verifier::external_body]
pub struct ExSmallRng(SmallRng);

/// A generator seeded from `seed` (`rand`'s `SeedableRng::seed_from_u64`
/// for `SmallRng`). Nothing is claimed of the generator's state.
#[verifier::external_body]
fn seeded_rng(seed: u64) -> SmallRng {
    SmallRng::seed_from_u64(seed)
}

/// A number drawn from `0..bound` (`rand`'s `Rng::gen_range` on that range,
/// which panics when the range is empty), returned with the bound it was
/// drawn under. What is drawn depends on the generator's state; only the
/// range is claimed.
#[verifier::external_body]
fn draw_below(rng: &mut SmallRng, bound: i16) -> (r: (i16, i16))
    requires
        bound > 0,
    ensures
        0 <= r.0 < bound,
        r.1 == bound,
{
    (rng.gen_range(0..bound), bound)
}

/// A seeded generator that records the draws made since the last
/// `restart`: each entry is a drawn number and the bound it was drawn under.
/// Only `draw` adds entries.
#[derive(Debug)]
pub struct Draws {
    rng: SmallRng,
    recent: Vec<(i16, i16)>,
}

impl Draws {
    /// The draws made since the last restart, oldest first, as
    /// `(number, bound)`.
    pub closed spec fn log(&self) -> Seq<(i16, i16)> {
        self.recent@
    }

    /// A generator seeded from `seed`, with no draws recorded.
    pub fn seeded(seed: u64) -> (d: Draws)
        ensures
            d.log() == Seq::<(i16, i16)>::empty(),
    {
        Draws { rng: seeded_rng(seed), recent: Vec::new() }
    }

    /// Forget the recorded draws; the generator's state is untouched.
    pub fn restart(&mut self)
        ensures
            final(self).log() == Seq::<(i16, i16)>::empty(),
    {
        self.recent.clear();
    }

    /// A number drawn from `0..bound`; the draw is recorded.
    pub fn draw(&mut self, bound: i16) -> (r: i16)
        requires
            bound > 0,
        ensures
            0 <= r < bound,
            final(self).log() == old(self).log().push((r, bound)),
    {
        let (v, b) = draw_below(&mut self.rng, bound);
        self.recent.push((v, b));
        v
    }
}

} // verus!
