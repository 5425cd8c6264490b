//! Closed scalar ranges.
//!
//! An interval is a pair of raw fixed-point endpoints; `min > max` encodes
//! the empty set. The unbounded endpoints of the empty and universal
//! intervals sit just outside the saturation range of the arithmetic, so no
//! computed scalar ever reaches them.

use crate::fixed::{fxadd, fxadd_s, fxsub, fxsub_s, tdiv, FX_INF};
use vstd::prelude::*;

verus! {

/// The model of an interval: its endpoints as unbounded integers.
pub ghost struct Iv {
    pub min: int,
    pub max: int,
}

pub open spec fn iv(min: int, max: int) -> Iv {
    Iv { min, max }
}

pub open spec fn empty_iv() -> Iv {
    iv(FX_INF as int, -FX_INF as int)
}

pub open spec fn universe_iv() -> Iv {
    iv(-FX_INF as int, FX_INF as int)
}

pub open spec fn size_s(i: Iv) -> int {
    fxsub_s(i.max, i.min)
}

/// Inclusive membership.
pub open spec fn contains_s(i: Iv, x: int) -> bool {
    i.min <= x && x <= i.max
}

/// Strict membership; boundary values are excluded.
pub open spec fn surrounds_s(i: Iv, x: int) -> bool {
    i.min < x && x < i.max
}

pub open spec fn clamp_s(i: Iv, x: int) -> int {
    if x < i.min {
        i.min
    } else if x > i.max {
        i.max
    } else {
        x
    }
}

/// The smallest interval enclosing both arguments.
pub open spec fn enclose_s(a: Iv, b: Iv) -> Iv {
    iv(if a.min <= b.min {
        a.min
    } else {
        b.min
    }, if a.max >= b.max {
        a.max
    } else {
        b.max
    })
}

/// Symmetric widening by half of `delta` on each side.
pub open spec fn expand_s(i: Iv, delta: int) -> Iv {
    iv(fxsub_s(i.min, tdiv(delta, 2)), fxadd_s(i.max, tdiv(delta, 2)))
}

/// A closed range of fixed-point scalars.
#[derive(Clone, Copy, Debug, PartialEq, Eq, Structural)]
pub struct Interval {
    pub min: i64,
    pub max: i64,
}

impl View for Interval {
    type V = Iv;

    open spec fn view(&self) -> Iv {
        iv(self.min as int, self.max as int)
    }
}

impl Interval {
    pub fn new(min: i64, max: i64) -> (r: Interval)
        ensures
            r@ == iv(min as int, max as int),
    {
        Interval { min, max }
    }

    /// The empty interval: every strict or inclusive membership test fails.
    pub fn empty() -> (r: Interval)
        ensures
            r@ == empty_iv(),
    {
        Interval { min: FX_INF, max: -FX_INF }
    }

    /// The interval spanning every representable scalar.
    pub fn universe() -> (r: Interval)
        ensures
            r@ == universe_iv(),
    {
        Interval { min: -FX_INF, max: FX_INF }
    }

    /// The smallest interval enclosing both arguments.
    pub fn new_enclose_both(a: &Interval, b: &Interval) -> (r: Interval)
        ensures
            r@ == enclose_s(a@, b@),
    {
        let min = if a.min <= b.min {
            a.min
        } else {
            b.min
        };
        let max = if a.max >= b.max {
            a.max
        } else {
            b.max
        };
        Interval { min, max }
    }

    pub fn size(&self) -> (r: i64)
        ensures
            r as int == size_s(self@),
    {
        fxsub(self.max, self.min)
    }

    pub fn contains(&self, x: i64) -> (r: bool)
        ensures
            r == contains_s(self@, x as int),
    {
        self.min <= x && x <= self.max
    }

    pub fn surrounds(&self, x: i64) -> (r: bool)
        ensures
            r == surrounds_s(self@, x as int),
    {
        self.min < x && x < self.max
    }

    pub fn clamp(&self, x: i64) -> (r: i64)
        ensures
            r as int == clamp_s(self@, x as int),
    {
        if x < self.min {
            self.min
        } else if x > self.max {
            self.max
        } else {
            x
        }
    }

    /// Widen by half of `delta` on each side.
    pub fn expand(&self, delta: i64) -> (r: Interval)
        ensures
            r@ == expand_s(self@, delta as int),
    {
        let half_wide = crate::fixed::div_trunc(delta as i128, 2);
        let half = half_wide as i64;
        Interval { min: fxsub(self.min, half), max: fxadd(self.max, half) }
    }
}

} // verus!
