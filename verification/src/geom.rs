//! Plain 2- and 3-component vectors of fixed-point scalars.

use vstd::prelude::*;

use crate::fix::fx_mul;
use crate::fix::mul_sat;
use crate::fix::FIX_BOUND;

verus! {

/// A 2D vector of fixed-point scalars.
#[derive(Clone, Copy, Debug, PartialEq, Eq, Structural)]
pub struct Vec2 {
    pub x: i64,
    pub y: i64,
}

/// A 3D vector of fixed-point scalars.
#[derive(Clone, Copy, Debug, PartialEq, Eq, Structural)]
pub struct Vec3 {
    pub x: i64,
    pub y: i64,
    pub z: i64,
}

impl Vec2 {
    pub fn new(x: i64, y: i64) -> (v: Vec2)
        ensures
            v.x == x && v.y == y,
    {
        Vec2 { x, y }
    }

    /// The origin of the plane.
    pub fn zero() -> (v: Vec2)
        ensures
            v.x == 0 && v.y == 0,
    {
        Vec2 { x: 0, y: 0 }
    }
}

impl Vec3 {
    pub fn new(x: i64, y: i64, z: i64) -> (v: Vec3)
        ensures
            v.x == x && v.y == y && v.z == z,
    {
        Vec3 { x, y, z }
    }

    /// The origin of space.
    pub fn zero() -> (v: Vec3)
        ensures
            v.x == 0 && v.y == 0 && v.z == 0,
    {
        Vec3 { x: 0, y: 0, z: 0 }
    }

    /// All components within the input bound.
    pub open spec fn bounded(self) -> bool {
        &&& -FIX_BOUND <= self.x <= FIX_BOUND
        &&& -FIX_BOUND <= self.y <= FIX_BOUND
        &&& -FIX_BOUND <= self.z <= FIX_BOUND
    }

    /// Fixed-point dot product of two vectors with bounded components.
    pub fn dot(self, o: Vec3) -> (r: i64)
        requires
            self.bounded(),
            o.bounded(),
        ensures
            r as int == fx_mul(self.x as int, o.x as int) + fx_mul(self.y as int, o.y as int)
                + fx_mul(self.z as int, o.z as int),
    {
        proof {
            crate::fix::lemma_fx_mul_bound(self.x as int, o.x as int, FIX_BOUND as int, FIX_BOUND as int);
            crate::fix::lemma_fx_mul_sat_exact(self.x as int, o.x as int);
            crate::fix::lemma_fx_mul_bound(self.y as int, o.y as int, FIX_BOUND as int, FIX_BOUND as int);
            crate::fix::lemma_fx_mul_sat_exact(self.y as int, o.y as int);
            crate::fix::lemma_fx_mul_bound(self.z as int, o.z as int, FIX_BOUND as int, FIX_BOUND as int);
            crate::fix::lemma_fx_mul_sat_exact(self.z as int, o.z as int);
        }
        let px = mul_sat(self.x, o.x);
        let py = mul_sat(self.y, o.y);
        let pz = mul_sat(self.z, o.z);
        px + py + pz
    }
}

} // verus!
