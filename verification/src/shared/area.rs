use crate::rtr::number::Number;
use vstd::prelude::*;

verus! {

/// A point or an extent in two dimensions.
#[derive(Clone, Copy, Debug, PartialEq, Eq, Structural)]
pub struct Vec2(pub Number, pub Number);

/// A rectangle, or four distances from the sides of one: `a` holds the
/// left and the top, `b` the right and the bottom.
#[derive(Clone, Copy, Debug, PartialEq, Eq, Structural)]
pub struct Area {
    pub a: Vec2,
    pub b: Vec2,
}

impl Area {
    /// The area with the sign of every number turned.
    pub open spec fn spec_flip(&self) -> Area {
        Area {
            a: Vec2(self.a.0.spec_negate(), self.a.1.spec_negate()),
            b: Vec2(self.b.0.spec_negate(), self.b.1.spec_negate()),
        }
    }

    /// The left side.
    pub fn left(&self) -> (x: Number)
        ensures
            x == self.a.0,
    {
        self.a.0
    }

    /// The right side.
    pub fn right(&self) -> (x: Number)
        ensures
            x == self.b.0,
    {
        self.b.0
    }

    /// The top side.
    pub fn top(&self) -> (x: Number)
        ensures
            x == self.a.1,
    {
        self.a.1
    }

    /// The bottom side.
    pub fn bottom(&self) -> (x: Number)
        ensures
            x == self.b.1,
    {
        self.b.1
    }

    /// The area with the sign of every number turned.
    #[verifier::when_used_as_spec(spec_flip)]
    pub fn flip(&self) -> (out: Area)
        ensures
            out == self.spec_flip(),
    {
        Area {
            a: Vec2(self.a.0.negate(), self.a.1.negate()),
            b: Vec2(self.b.0.negate(), self.b.1.negate()),
        }
    }
}

} // verus!
