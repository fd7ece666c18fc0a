//! Closed numeric ranges over exact rationals.
//!
//! An interval bounds the valid ray parameters of an intersection query and
//! clamps color channels.  `surrounds` is the strict open-interval test that
//! excludes self-intersection at a surface; `clamp` saturates a value into
//! the range.

use vstd::prelude::*;
use crate::rat::{Rat, rat_lt};

verus! {

pub struct Interval {
    pub min: Rat,
    pub max: Rat,
}

/// Strict containment of `x` in the open interval `(i.min, i.max)`.
pub open spec fn surrounds_spec(i: Interval, x: Rat) -> bool {
    rat_lt(i.min, x) && rat_lt(x, i.max)
}

impl Interval {
    pub open spec fn wf(self) -> bool {
        self.min.wf() && self.max.wf()
    }

    pub fn new(min: Rat, max: Rat) -> (r: Interval)
        requires
            min.wf(),
            max.wf(),
        ensures
            r == (Interval { min, max }),
            r.wf(),
    {
        Interval { min, max }
    }

    /// Strict containment: `min < x < max`.
    pub fn surrounds(&self, x: &Rat) -> (r: bool)
        requires
            self.wf(),
            x.wf(),
        ensures
            r == surrounds_spec(*self, *x),
    {
        self.min.lt(x) && x.lt(&self.max)
    }

    /// The integrator's valid-hit window: the exact grid's stand-in for the
    /// unbounded default, open at the far end beyond any representable
    /// scene, with the near end just above zero — about half a tick of
    /// travel at the standard direction scale — so a scattered ray cannot
    /// re-hit its own origin surface ("shadow acne").
    pub fn forward_window() -> (r: Interval)
        ensures
            r.min == (Rat { num: 1, den: 0x20000 }),
            r.max == (Rat { num: i64::MAX, den: 1 }),
            r.wf(),
    {
        Interval { min: Rat { num: 1, den: 0x20000 }, max: Rat { num: i64::MAX, den: 1 } }
    }

    /// Saturate `x` into `[min, max]`.
    pub fn clamp(&self, x: &Rat) -> (r: Rat)
        requires
            self.wf(),
            x.wf(),
        ensures
            rat_lt(*x, self.min) ==> r == self.min,
            !rat_lt(*x, self.min) && rat_lt(self.max, *x) ==> r == self.max,
            !rat_lt(*x, self.min) && !rat_lt(self.max, *x) ==> r == *x,
            r.wf(),
    {
        if x.lt(&self.min) {
            self.min
        } else if self.max.lt(x) {
            self.max
        } else {
            *x
        }
    }
}

} // verus!
