//! Integer world coordinates.
//!
//! Editing happens on a single fixed plane, and every interaction consumes or
//! produces world positions. Positions are kept as exact signed integers (a
//! fixed-point world unit); the rendering collaborator owns any conversion to
//! its own floating-point space. Coordinates of geometry in the arena stay
//! within `COORD_LIMIT`, so that midpoint and difference computations never
//! overflow an `i64`.

use vstd::prelude::*;

verus! {

/// Largest magnitude a stored coordinate may have: 2^60.
pub const COORD_LIMIT: i64 = 0x1000_0000_0000_0000;

/// A point or translation in world space, one coordinate per axis.
#[derive(Clone, Copy, Debug, PartialEq, Eq, Structural)]
pub struct Vec3i {
    pub x: i64,
    pub y: i64,
    pub z: i64,
}

/// The coordinate bound kept by every dot in the arena.
pub open spec fn in_bounds(v: Vec3i) -> bool {
    &&& -COORD_LIMIT <= v.x <= COORD_LIMIT
    &&& -COORD_LIMIT <= v.y <= COORD_LIMIT
    &&& -COORD_LIMIT <= v.z <= COORD_LIMIT
}

impl Vec3i {
    /// The origin.
    pub open spec fn spec_zero() -> Vec3i {
        Vec3i { x: 0, y: 0, z: 0 }
    }

    /// Componentwise sum, as unbounded integers.
    pub open spec fn spec_add(self, other: Vec3i) -> Vec3i {
        Vec3i {
            x: (self.x + other.x) as i64,
            y: (self.y + other.y) as i64,
            z: (self.z + other.z) as i64,
        }
    }

    /// Componentwise difference, as unbounded integers.
    pub open spec fn spec_sub(self, other: Vec3i) -> Vec3i {
        Vec3i {
            x: (self.x - other.x) as i64,
            y: (self.y - other.y) as i64,
            z: (self.z - other.z) as i64,
        }
    }

    /// True when the componentwise sum stays representable.
    pub open spec fn add_fits(self, other: Vec3i) -> bool {
        &&& i64::MIN <= self.x + other.x <= i64::MAX
        &&& i64::MIN <= self.y + other.y <= i64::MAX
        &&& i64::MIN <= self.z + other.z <= i64::MAX
    }

    /// True when the componentwise difference stays representable.
    pub open spec fn sub_fits(self, other: Vec3i) -> bool {
        &&& i64::MIN <= self.x - other.x <= i64::MAX
        &&& i64::MIN <= self.y - other.y <= i64::MAX
        &&& i64::MIN <= self.z - other.z <= i64::MAX
    }

    /// The origin.
    pub fn zero() -> (r: Vec3i)
        ensures
            r == Vec3i::spec_zero(),
    {
        Vec3i { x: 0, y: 0, z: 0 }
    }

    /// Componentwise sum.
    pub fn add(self, other: Vec3i) -> (r: Vec3i)
        requires
            self.add_fits(other),
        ensures
            r == self.spec_add(other),
            r.x == self.x + other.x,
            r.y == self.y + other.y,
            r.z == self.z + other.z,
    {
        Vec3i { x: self.x + other.x, y: self.y + other.y, z: self.z + other.z }
    }

    /// Componentwise difference.
    pub fn sub(self, other: Vec3i) -> (r: Vec3i)
        requires
            self.sub_fits(other),
        ensures
            r == self.spec_sub(other),
            r.x == self.x - other.x,
            r.y == self.y - other.y,
            r.z == self.z - other.z,
    {
        Vec3i { x: self.x - other.x, y: self.y - other.y, z: self.z - other.z }
    }
}

} // verus!
