//! A seeded source of numbers.
use rand::rngs::StdRng;
use rand::Rng;
use rand::SeedableRng;
use vstd::prelude::*;

use crate::fixed::UNIT;

verus! {

/// The generator of `rand`; its state is opaque to the proofs.
#[verifier::external_type_specification]
#[verifier::external_body]
pub struct ExStdRng(StdRng);

/// `StdRng::seed_from_u64`: a generator whose stream is fixed by `seed`.
/// Nothing is claimed of the stream.
#[verifier::external_body]
fn seeded_rng(seed: u64) -> StdRng {
    StdRng::seed_from_u64(seed)
}

/// `Rng::gen_range` on `i64`: a draw from the half-open range `[low, high)`.
/// The call panics when the range is empty, so callers must pass `low < high`.
#[verifier::external_body]
fn draw_in_range(rng: &mut StdRng, low: i64, high: i64) -> (drawn: i64)
    requires
        low < high,
    ensures
        low <= drawn < high,
{
    rng.gen_range(low, high)
}

/// `Clone::clone` of `StdRng`: a second generator; nothing is claimed of it.
#[verifier::external_body]
fn fork_rng(rng: &StdRng) -> StdRng {
    rng.clone()
}

/// Distance kept between a random coordinate and the edge of the arena.
pub const MARGIN: i64 = 40 * UNIT;

/// A seeded source of bounded numbers and of coordinates inside an arena.
pub struct RandomHelper {
    screen_size_x: i64,
    screen_size_y: i64,
    rng: StdRng,
}

impl RandomHelper {
    /// Width of the arena, in fixed-point units.
    pub closed spec fn screen_size_x(&self) -> int {
        self.screen_size_x as int
    }

    /// Height of the arena, in fixed-point units.
    pub closed spec fn screen_size_y(&self) -> int {
        self.screen_size_y as int
    }

    pub fn new(screen_size_x: i64, screen_size_y: i64, seed: u64) -> (helper: Self)
        ensures
            helper.screen_size_x() == screen_size_x,
            helper.screen_size_y() == screen_size_y,
    {
        RandomHelper { screen_size_x, screen_size_y, rng: seeded_rng(seed) }
    }

    /// Whether the arena is large enough to leave room between its margins.
    pub fn can_place(&self) -> (b: bool)
        ensures
            b == (self.screen_size_x() > 2 * MARGIN && self.screen_size_y() > 2 * MARGIN),
    {
        self.screen_size_x > 2 * MARGIN && self.screen_size_y > 2 * MARGIN
    }

    /// A point of the arena that keeps `MARGIN` to every edge.
    pub fn random_coordinate(&mut self) -> (point: (i64, i64))
        requires
            old(self).screen_size_x() > 2 * MARGIN,
            old(self).screen_size_y() > 2 * MARGIN,
        ensures
            MARGIN <= point.0 < final(self).screen_size_x() - MARGIN,
            MARGIN <= point.1 < final(self).screen_size_y() - MARGIN,
            final(self).screen_size_x() == old(self).screen_size_x(),
            final(self).screen_size_y() == old(self).screen_size_y(),
    {
        let x = draw_in_range(&mut self.rng, MARGIN, self.screen_size_x - MARGIN);
        let y = draw_in_range(&mut self.rng, MARGIN, self.screen_size_y - MARGIN);
        (x, y)
    }

    /// A number drawn from `[min, max)`.
    pub fn random_between(&mut self, min: i64, max: i64) -> (drawn: i64)
        requires
            min < max,
        ensures
            min <= drawn < max,
            final(self).screen_size_x() == old(self).screen_size_x(),
            final(self).screen_size_y() == old(self).screen_size_y(),
    {
        draw_in_range(&mut self.rng, min, max)
    }

    /// A helper for the same arena whose generator continues from this one's state.
    pub fn fork(&self) -> (helper: Self)
        ensures
            helper.screen_size_x() == self.screen_size_x(),
            helper.screen_size_y() == self.screen_size_y(),
    {
        RandomHelper {
            screen_size_x: self.screen_size_x,
            screen_size_y: self.screen_size_y,
            rng: fork_rng(&self.rng),
        }
    }
}

} // verus!
