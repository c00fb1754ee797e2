//! Points and offsets in fixed-point coordinates.
use vstd::prelude::*;
use crate::fixed::{clamp, isqrt, lerp, lerp_i64, saturate, saturating_sum, sqrt_floor};

verus! {

/// A point of the world, or an offset in it, in thousandths of a world unit.
#[derive(Clone, Copy, Debug, PartialEq, Eq, Structural)]
pub struct Vec3 {
    pub x: i64,
    pub y: i64,
    pub z: i64,
}

/// A point of the screen, in thousandths of a pixel.
#[derive(Clone, Copy, Debug, PartialEq, Eq, Structural)]
pub struct Vec2 {
    pub x: i64,
    pub y: i64,
}

impl Vec2 {
    /// The point with the given coordinates.
    pub fn new(x: i64, y: i64) -> (v: Vec2)
        ensures
            v == (Vec2 { x, y }),
    {
        Vec2 { x, y }
    }

    /// The origin of the screen.
    pub open spec fn zero() -> Vec2 {
        Vec2 { x: 0, y: 0 }
    }
}

impl Vec3 {
    /// The point with the given coordinates.
    pub fn new(x: i64, y: i64, z: i64) -> (v: Vec3)
        ensures
            v == (Vec3 { x, y, z }),
    {
        Vec3 { x, y, z }
    }

    /// The origin of the world.
    pub open spec fn zero() -> Vec3 {
        Vec3 { x: 0, y: 0, z: 0 }
    }

    /// The point `num / den` of the way from `self` to `to`, each coordinate
    /// rounded towards that of `self`.
    pub open spec fn lerp_spec(self, to: Vec3, num: int, den: int) -> Vec3 {
        Vec3 {
            x: lerp(self.x as int, to.x as int, num, den) as i64,
            y: lerp(self.y as int, to.y as int, num, den) as i64,
            z: lerp(self.z as int, to.z as int, num, den) as i64,
        }
    }

    /// The point halfway between `self` and `other`, rounded down.
    pub open spec fn midpoint_spec(self, other: Vec3) -> Vec3 {
        Vec3 {
            x: ((self.x + other.x) / 2) as i64,
            y: ((self.y + other.y) / 2) as i64,
            z: ((self.z + other.z) / 2) as i64,
        }
    }

    /// `self` moved by `by`, each coordinate kept within the range of its type.
    pub open spec fn plus_spec(self, by: Vec3) -> Vec3 {
        Vec3 {
            x: saturate(self.x + by.x) as i64,
            y: saturate(self.y + by.y) as i64,
            z: saturate(self.z + by.z) as i64,
        }
    }

    /// `self`, each coordinate raised to that of `lo` and then lowered to
    /// that of `hi`.
    pub open spec fn clamp_spec(self, lo: Vec3, hi: Vec3) -> Vec3 {
        Vec3 {
            x: clamp(self.x as int, lo.x as int, hi.x as int) as i64,
            y: clamp(self.y as int, lo.y as int, hi.y as int) as i64,
            z: clamp(self.z as int, lo.z as int, hi.z as int) as i64,
        }
    }

    /// The square of the distance between two points.
    pub open spec fn distance_squared(self, other: Vec3) -> nat {
        ((self.x - other.x) * (self.x - other.x) + (self.y - other.y) * (self.y - other.y) + (
        self.z - other.z) * (self.z - other.z)) as nat
    }

    /// Whether `other` is nearer to `self` than `range`.
    pub open spec fn within(self, other: Vec3, range: int) -> bool {
        range > 0 && self.distance_squared(other) < range * range
    }

    /// The distance between two points in thousandths of a world unit, cut
    /// off to a whole number.
    pub open spec fn distance_key(self, other: Vec3) -> nat {
        sqrt_floor(self.distance_squared(other))
    }

    /// Interpolates between `self` and `to` at the fraction `num / den`.
    pub fn lerp(self, to: Vec3, num: u64, den: u64) -> (v: Vec3)
        requires
            num <= den,
            0 < den,
        ensures
            v == self.lerp_spec(to, num as int, den as int),
    {
        Vec3 {
            x: lerp_i64(self.x, to.x, num, den),
            y: lerp_i64(self.y, to.y, num, den),
            z: lerp_i64(self.z, to.z, num, den),
        }
    }

    /// The point halfway between `self` and `other`.
    pub fn midpoint(self, other: Vec3) -> (v: Vec3)
        ensures
            v == self.midpoint_spec(other),
    {
        Vec3 {
            x: half_sum(self.x, other.x),
            y: half_sum(self.y, other.y),
            z: half_sum(self.z, other.z),
        }
    }

    /// Moves `self` by `by`.
    pub fn plus(self, by: Vec3) -> (v: Vec3)
        ensures
            v == self.plus_spec(by),
    {
        Vec3 {
            x: saturating_sum(self.x, by.x),
            y: saturating_sum(self.y, by.y),
            z: saturating_sum(self.z, by.z),
        }
    }

    /// Brings each coordinate of `self` between those of `lo` and `hi`.
    pub fn clamp(self, lo: Vec3, hi: Vec3) -> (v: Vec3)
        ensures
            v == self.clamp_spec(lo, hi),
    {
        Vec3 {
            x: raise_then_lower(self.x, lo.x, hi.x),
            y: raise_then_lower(self.y, lo.y, hi.y),
            z: raise_then_lower(self.z, lo.z, hi.z),
        }
    }

    /// Measures the distance from `self` to `other` where it is below
    /// `range`, and answers `None` where it is not.
    pub fn distance_within(self, other: Vec3, range: i32) -> (key: Option<u32>)
        ensures
            key is Some <==> self.within(other, range as int),
            key is Some ==> key->0 == self.distance_key(other),
            key is Some ==> key->0 < range,
    {
        if range <= 0 {
            return None;
        }
        let reach: u64 = range as u64;
        let dx: u128 = gap(self.x, other.x);
        let dy: u128 = gap(self.y, other.y);
        let dz: u128 = gap(self.z, other.z);
        let ghost square = self.distance_squared(other);
        proof {
            assert(dx * dx == (self.x - other.x) * (self.x - other.x)) by (nonlinear_arith)
                requires
                    dx == self.x - other.x || dx == other.x - self.x,
            ;
            assert(dy * dy == (self.y - other.y) * (self.y - other.y)) by (nonlinear_arith)
                requires
                    dy == self.y - other.y || dy == other.y - self.y,
            ;
            assert(dz * dz == (self.z - other.z) * (self.z - other.z)) by (nonlinear_arith)
                requires
                    dz == self.z - other.z || dz == other.z - self.z,
            ;
            assert(square == dx * dx + dy * dy + dz * dz);
            assert(dx >= reach ==> dx * dx >= reach * reach) by (nonlinear_arith)
                requires
                    reach >= 0,
            ;
            assert(dy >= reach ==> dy * dy >= reach * reach) by (nonlinear_arith)
                requires
                    reach >= 0,
            ;
            assert(dz >= reach ==> dz * dz >= reach * reach) by (nonlinear_arith)
                requires
                    reach >= 0,
            ;
            assert(dx * dx >= 0 && dy * dy >= 0 && dz * dz >= 0) by (nonlinear_arith);
        }
        if dx >= reach as u128 || dy >= reach as u128 || dz >= reach as u128 {
            return None;
        }
        let ax: u64 = dx as u64;
        let ay: u64 = dy as u64;
        let az: u64 = dz as u64;
        proof {
            assert(ax * ax < 0x8000_0000 * 0x8000_0000) by (nonlinear_arith)
                requires
                    0 <= ax < 0x8000_0000,
            ;
            assert(ay * ay < 0x8000_0000 * 0x8000_0000) by (nonlinear_arith)
                requires
                    0 <= ay < 0x8000_0000,
            ;
            assert(az * az < 0x8000_0000 * 0x8000_0000) by (nonlinear_arith)
                requires
                    0 <= az < 0x8000_0000,
            ;
            assert(reach * reach < 0x8000_0000 * 0x8000_0000) by (nonlinear_arith)
                requires
                    0 <= reach < 0x8000_0000,
            ;
        }
        let sum: u64 = ax * ax + ay * ay + az * az;
        if sum >= reach * reach {
            return None;
        }
        let root: u32 = isqrt(sum);
        proof {
            assert(root < reach) by (nonlinear_arith)
                requires
                    root * root <= sum,
                    sum < reach * reach,
                    root >= 0,
                    reach >= 0,
            ;
        }
        Some(root)
    }
}

/// The distance between two coordinates.
fn gap(a: i64, b: i64) -> (d: u128)
    ensures
        d == if a >= b {
            a - b
        } else {
            b - a
        },
{
    if a >= b {
        (a as i128 - b as i128) as u128
    } else {
        (b as i128 - a as i128) as u128
    }
}

/// Half the sum of two coordinates, rounded down.
fn half_sum(a: i64, b: i64) -> (h: i64)
    ensures
        h == (a + b) / 2,
{
    let sum: i128 = a as i128 + b as i128;
    if sum >= 0 {
        (sum as u128 / 2) as i64
    } else {
        let up: u128 = ((-sum) as u128 + 1) / 2;
        (-(up as i128)) as i64
    }
}

/// Raises `v` to at least `lo`, then lowers the result to at most `hi`.
fn raise_then_lower(v: i64, lo: i64, hi: i64) -> (r: i64)
    ensures
        r == clamp(v as int, lo as int, hi as int),
{
    let raised: i64 = if v < lo {
        lo
    } else {
        v
    };
    if raised > hi {
        hi
    } else {
        raised
    }
}

} // verus!
