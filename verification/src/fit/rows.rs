//! How much of a fitted row's roughness survives, found on the render: the row
//! is flattened by halves until the note is no rougher than its target.

use crate::reading::Reading;
use vstd::prelude::*;

verus! {

/// Halvings of the fraction that is kept, and corrections of the level after
/// them.
pub const KEEP_STEPS: u32 = 7;

pub const LEVEL_ROUNDS: u32 = 2;

/// The whole of the roughness, in the units that a fraction is counted in.
pub const WHOLE: u32 = 128;

/// 128 divided by two, `steps` times.
pub open spec fn width(steps: int) -> int
    decreases steps,
{
    if steps <= 0 {
        WHOLE as int
    } else {
        width(steps - 1) / 2
    }
}

/// Where a row stands: the fractions are counted in parts of [`WHOLE`].
pub struct RowSearch {
    pub lo: u32,
    pub hi: u32,
    pub keep: u32,
    pub steps: u32,
    /// Whether the whole row passed, so that nothing is searched.
    pub whole: bool,
    pub rounds: u32,
    /// Whether the level is where it should be.
    pub level_done: bool,
}

/// What is rendered next.
#[derive(Clone, Copy, Debug, PartialEq, Eq, Structural)]
pub enum Next {
    /// The row with this much of its roughness.
    Keep(u32),
    /// The row as it stands, for its level.
    Level,
    /// The row as it stands, for the record.
    Last,
}

impl RowSearch {
    /// The bracket halves with each step; the fraction that is kept is the
    /// whole row where that passed, and else the bracket's lower end: nothing of
    /// the roughness until some part of it passes.
    pub open spec fn wf(self) -> bool {
        &&& self.steps <= KEEP_STEPS
        &&& self.rounds <= LEVEL_ROUNDS
        &&& self.lo < self.hi <= WHOLE
        &&& self.whole ==> self.steps == 0 && self.lo == 0 && self.hi == WHOLE
        &&& self.hi - self.lo == width(self.steps as int)
        &&& self.keep == (if self.whole {
            WHOLE
        } else {
            self.lo
        })
    }

    pub open spec fn upcoming(self) -> Next {
        if !self.whole && self.steps < KEEP_STEPS {
            Next::Keep(((self.lo + self.hi) / 2) as u32)
        } else if !self.level_done && self.rounds < LEVEL_ROUNDS {
            Next::Level
        } else {
            Next::Last
        }
    }

    /// Begins with the whole row: `rough` is its roughness on the render and
    /// `limit` what it may be at most.
    pub fn begin(rough: Reading, limit: Reading) -> (r: RowSearch)
        ensures
            r.wf(),
            r.whole == !limit.below(rough),
            r.lo == 0,
            r.hi == WHOLE,
            r.keep == (if limit.below(rough) {
                0
            } else {
                WHOLE
            }),
            r.steps == 0,
            r.rounds == 0,
            !r.level_done,
    {
        let whole = !limit.lt(&rough);
        RowSearch {
            lo: 0,
            hi: WHOLE,
            keep: if whole {
                WHOLE
            } else {
                0
            },
            steps: 0,
            whole,
            rounds: 0,
            level_done: false,
        }
    }

    pub fn next(&self) -> (r: Next)
        requires
            self.wf(),
        ensures
            r == self.upcoming(),
    {
        if !self.whole && self.steps < KEEP_STEPS {
            Next::Keep((self.lo + self.hi) / 2)
        } else if !self.level_done && self.rounds < LEVEL_ROUNDS {
            Next::Level
        } else {
            Next::Last
        }
    }

    /// Takes in the roughness that the middle of the bracket rendered at.
    pub fn tell_roughness(&mut self, rough: Reading, limit: Reading)
        requires
            old(self).wf(),
            old(self).upcoming() is Keep,
        ensures
            final(self).wf(),
            final(self).steps == old(self).steps + 1,
            final(self).whole == old(self).whole,
            final(self).rounds == old(self).rounds,
            final(self).level_done == old(self).level_done,
            limit.below(rough) ==> final(self).hi == (old(self).lo + old(self).hi) / 2
                && final(self).lo == old(self).lo && final(self).keep == old(self).keep,
            !limit.below(rough) ==> final(self).lo == (old(self).lo + old(self).hi) / 2
                && final(self).hi == old(self).hi && final(self).keep == final(self).lo,
    {
        proof {
            widths();
        }
        let mid: u32 = (self.lo + self.hi) / 2;
        if limit.lt(&rough) {
            self.hi = mid;
        } else {
            self.lo = mid;
            self.keep = mid;
        }
        self.steps = self.steps + 1;
    }

    /// Takes in how far the level lies outside its band; at most `tolerance` is
    /// close enough, and else the row is lifted by that much and rendered again.
    pub fn tell_level(&mut self, outside: Reading, tolerance: Reading) -> (lift: bool)
        requires
            old(self).wf(),
            old(self).upcoming() is Level,
        ensures
            final(self).wf(),
            lift == !outside.at_most(tolerance),
            final(self).level_done == !lift,
            final(self).rounds == (if lift {
                old(self).rounds + 1
            } else {
                old(self).rounds as int
            }),
            final(self).lo == old(self).lo,
            final(self).hi == old(self).hi,
            final(self).keep == old(self).keep,
            final(self).steps == old(self).steps,
            final(self).whole == old(self).whole,
    {
        if outside.le(&tolerance) {
            self.level_done = true;
            false
        } else {
            self.rounds = self.rounds + 1;
            true
        }
    }
}

proof fn widths()
    ensures
        width(0) == 128,
        width(1) == 64,
        width(2) == 32,
        width(3) == 16,
        width(4) == 8,
        width(5) == 4,
        width(6) == 2,
        width(7) == 1,
{
    reveal_with_fuel(width, 8);
}

/// Whether the render ended up under the ceiling: `reach` is the ceiling with
/// the tolerance that is allowed.
pub fn reached(rough: Reading, reach: Reading) -> (r: bool)
    ensures
        r == rough.at_most(reach),
{
    rough.le(&reach)
}

/// At the end of the search the kept fraction is pinned to one part in
/// [`WHOLE`]: the next larger fraction was too rough, unless the whole row
/// passed. Where nothing passed, nothing of the roughness is kept.
pub proof fn the_kept_fraction_is_pinned(s: RowSearch)
    requires
        s.wf(),
        s.upcoming() !is Keep,
    ensures
        s.whole || s.hi == s.lo + 1,
        s.whole ==> s.keep == WHOLE,
        !s.whole ==> s.keep == s.lo,
        s.lo == 0 && !s.whole ==> s.keep == 0,
{
    widths();
}

} // verus!
