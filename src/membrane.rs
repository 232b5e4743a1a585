//! Classification of a candidate crossing point by four region tests.
use vstd::prelude::*;

verus! {

/// The outcome of the four half-plane and disk tests on a point `(x, y)` of
/// the plane, as the membrane classifier evaluates them.
#[derive(Clone, Copy, Debug, PartialEq, Eq)]
pub struct RegionTests {
    /// `x > 0`
    pub x_positive: bool,
    /// `x < y * sqrt(3)`
    pub left_of_rising: bool,
    /// `x < -y * sqrt(3)`
    pub left_of_falling: bool,
    /// `x * x + y * y > 2.25`, that is the point lies outside radius 1.5
    pub outer: bool,
}

/// One of the three symmetric strands of the knot diagram.
#[derive(Clone, Copy, Debug, PartialEq, Eq)]
pub enum Arc {
    A,
    B,
    C,
}

/// The label that a world transition through `a` reflects about, modulo six.
pub open spec fn arc_label(a: Arc) -> int {
    match a {
        Arc::A => 1,
        Arc::B => 5,
        Arc::C => 3,
    }
}

pub open spec fn indicator(b: bool) -> nat {
    if b { 1 } else { 0 }
}

/// How many of the four tests hold.
pub open spec fn holding_count(t: RegionTests) -> nat {
    indicator(t.x_positive) + indicator(t.left_of_rising) + indicator(t.left_of_falling)
        + indicator(t.outer)
}

/// The sign of the membrane's height over the point: `-1` when an odd number
/// of the tests hold, `1` otherwise.
pub open spec fn side_of(t: RegionTests) -> int {
    if holding_count(t) % 2 == 1 { -1 } else { 1 }
}

/// The strand selected before the inner/outer split.
pub open spec fn strand_of(t: RegionTests) -> Arc {
    if t.x_positive {
        if t.left_of_falling { Arc::C } else { Arc::B }
    } else {
        if t.left_of_rising { Arc::A } else { Arc::C }
    }
}

/// The base value that a crossing at a point with these tests reflects the
/// world index through: the strand's label, plus two inside radius 1.5.
pub open spec fn arc_base_of(t: RegionTests) -> int {
    arc_label(strand_of(t)) + if t.outer { 0int } else { 2int }
}

/// The arc of the knot diagram that a crossing at such a point passes under.
/// Outside radius 1.5 it is the strand itself; inside, the diagram's arcs are
/// shifted: where the strand is A the arc is C, B gives A, and C gives B.
pub open spec fn crossed_arc_of(t: RegionTests) -> Arc {
    if t.outer {
        strand_of(t)
    } else {
        match strand_of(t) {
            Arc::A => Arc::C,
            Arc::B => Arc::A,
            Arc::C => Arc::B,
        }
    }
}

impl Arc {
    /// The arc's label: A is 1, B is 5, C is 3.
    pub fn label(&self) -> (r: i32)
        ensures
            r == arc_label(*self),
    {
        match self {
            Arc::A => 1,
            Arc::B => 5,
            Arc::C => 3,
        }
    }
}

impl RegionTests {
    /// The sign of the membrane height above the point: `-1` when an odd
    /// number of the four tests hold, else `1`.
    pub fn membrane_sign(&self) -> (r: i32)
        ensures
            r == side_of(*self),
    {
        let odd = self.x_positive ^ self.left_of_rising ^ self.left_of_falling ^ self.outer;
        if odd {
            -1
        } else {
            1
        }
    }

    /// The base value of the transition: `(x > 0 ? (x < -y√3 ? 3 : 5) :
    /// (x < y√3 ? 1 : 3)) + (r² > 2.25 ? 0 : 2)`.
    pub fn arc_base(&self) -> (r: i32)
        ensures
            r == arc_base_of(*self),
            1 <= r <= 7,
    {
        let strand: i32 = if self.x_positive {
            if self.left_of_falling {
                3
            } else {
                5
            }
        } else {
            if self.left_of_rising {
                1
            } else {
                3
            }
        };
        if self.outer {
            strand
        } else {
            strand + 2
        }
    }

    /// The arc of the knot diagram that a crossing at this point passes
    /// under; its label agrees with the base value modulo six.
    pub fn crossed_arc(&self) -> (r: Arc)
        ensures
            r == crossed_arc_of(*self),
            arc_label(r) == arc_base_of(*self) % 6,
    {
        let strand = if self.x_positive {
            if self.left_of_falling {
                Arc::C
            } else {
                Arc::B
            }
        } else {
            if self.left_of_rising {
                Arc::A
            } else {
                Arc::C
            }
        };
        if self.outer {
            strand
        } else {
            match strand {
                Arc::A => Arc::C,
                Arc::B => Arc::A,
                Arc::C => Arc::B,
            }
        }
    }
}

} // verus!
