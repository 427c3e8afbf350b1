use vstd::prelude::*;
use crate::motion::{lemma_unit_nonzero, lemma_unit_toward, unit_of, unit_toward};

verus! {

/// A combined input direction on the horizontal (x, z) plane.
/// Forward ("up" on the stick) points along negative z, as in a right-handed,
/// y-up scene; right points along positive x.
#[derive(Clone, Copy, Debug, PartialEq, Eq, Structural)]
pub struct Direction {
    pub x: i8,
    pub z: i8,
}

/// Largest component magnitude a combined direction may reach: sums of up to
/// this many cardinals always fit.
pub const MAX_COMPONENT: i8 = 64;

/// Fixed-point scale of a unit length.
pub const UNIT: i64 = 1_000_000;


impl Direction {
    pub open spec fn wf(self) -> bool {
        -MAX_COMPONENT <= self.x <= MAX_COMPONENT && -MAX_COMPONENT <= self.z <= MAX_COMPONENT
    }

    /// Every component is -1, 0 or 1: what summing distinct cardinals yields.
    pub open spec fn is_cardinal_sum(self) -> bool {
        -1 <= self.x <= 1 && -1 <= self.z <= 1
    }

    pub open spec fn spec_is_neutral(self) -> bool {
        self.x == 0 && self.z == 0
    }

    pub fn neutral() -> (r: Direction)
        ensures
            r.x == 0 && r.z == 0,
    {
        Direction { x: 0, z: 0 }
    }

    pub fn up() -> (r: Direction)
        ensures
            r.x == 0 && r.z == -1,
    {
        Direction { x: 0, z: -1 }
    }

    pub fn down() -> (r: Direction)
        ensures
            r.x == 0 && r.z == 1,
    {
        Direction { x: 0, z: 1 }
    }

    pub fn left() -> (r: Direction)
        ensures
            r.x == -1 && r.z == 0,
    {
        Direction { x: -1, z: 0 }
    }

    pub fn right() -> (r: Direction)
        ensures
            r.x == 1 && r.z == 0,
    {
        Direction { x: 1, z: 0 }
    }

    /// Component-wise sum, used to combine simultaneously held directions.
    pub fn add(self, other: Direction) -> (r: Direction)
        requires
            self.wf(),
            other.wf(),
            self.x + other.x >= -MAX_COMPONENT && self.x + other.x <= MAX_COMPONENT,
            self.z + other.z >= -MAX_COMPONENT && self.z + other.z <= MAX_COMPONENT,
        ensures
            r.x == self.x + other.x,
            r.z == self.z + other.z,
            r.wf(),
    {
        Direction { x: self.x + other.x, z: self.z + other.z }
    }

    /// The fixed-point unit vector along this direction (length `UNIT`,
    /// rounded toward zero), or zero for the neutral direction: a combined
    /// direction never yields a division by zero.
    pub open spec fn spec_unit(self) -> (i64, i64) {
        match unit_toward(self.x * UNIT, self.z * UNIT) {
            Some(u) => u,
            None => (0, 0),
        }
    }

    /// Zero-or-normalize: `(0, 0)` for the neutral direction, else the unit
    /// vector (scaled by `UNIT`) pointing the same way.
    pub fn normalize_or_zero(self) -> (r: (i64, i64))
        requires
            self.wf(),
        ensures
            r == self.spec_unit(),
            self.spec_is_neutral() <==> r == (0i64, 0i64),
            r.0 * r.0 + r.1 * r.1 <= UNIT * UNIT,
    {
        let x: i64 = self.x as i64 * UNIT;
        let z: i64 = self.z as i64 * UNIT;
        proof {
            lemma_unit_toward(x as int, z as int);
            if !self.spec_is_neutral() {
                let a = self.x as int;
                let c = self.z as int;
                assert(a * a + c * c >= 1) by (nonlinear_arith)
                    requires
                        !(a == 0 && c == 0),
                ;
                assert(x * x + z * z == (a * a + c * c) * (UNIT * UNIT)) by (nonlinear_arith)
                    requires
                        x == a * UNIT,
                        z == c * UNIT,
                ;
                assert((a * a + c * c) * (UNIT * UNIT) >= UNIT * UNIT) by (nonlinear_arith)
                    requires
                        a * a + c * c >= 1,
                ;
                lemma_unit_nonzero(x as int, z as int);
            }
        }
        match unit_of(x, z) {
            Some(u) => u,
            None => (0, 0),
        }
    }

    pub fn is_neutral(self) -> (r: bool)
        ensures
            r == self.spec_is_neutral(),
    {
        self.x == 0 && self.z == 0
    }
}

} // verus!
