//! Geometric data as it travels through the simulation and the wire.
//!
//! Real-valued fields are carried as the bit pattern of an IEEE-754
//! single.  The crate stores, compares and transports these patterns;
//! the numeric work on them (integration, rotation, projection) is done
//! by the display- and physics-facing callers outside the crate, which
//! convert a [`Real32`] to their native number type and back.

use vstd::prelude::*;

verus! {

/// A real number, held as the bit pattern of an IEEE-754 single.
#[derive(PartialEq, Eq, Structural, Clone, Copy, Debug)]
pub struct Real32 {
    pub bits: u32,
}

impl Real32 {
    /// The pattern of positive zero.
    pub fn zero() -> (r: Real32)
        ensures
            r == (Real32 { bits: 0 }),
    {
        Real32 { bits: 0 }
    }

    /// Wrap a raw bit pattern.
    pub fn from_bits(bits: u32) -> (r: Real32)
        ensures
            r == (Real32 { bits }),
    {
        Real32 { bits }
    }
}

/// A point or direction in the plane.
#[derive(PartialEq, Eq, Structural, Clone, Copy, Debug)]
pub struct Vec2 {
    pub x: Real32,
    pub y: Real32,
}

impl Vec2 {
    /// The origin.
    pub fn zero() -> (r: Vec2)
        ensures
            r == (Vec2 { x: Real32 { bits: 0 }, y: Real32 { bits: 0 } }),
    {
        Vec2 { x: Real32 { bits: 0 }, y: Real32 { bits: 0 } }
    }
}

/// A position together with a rotation in radians.
#[derive(PartialEq, Eq, Structural, Clone, Copy, Debug)]
pub struct Transform {
    pub pos: Vec2,
    pub rotation: Real32,
}

impl Transform {
    /// The identity transform: origin, no rotation.
    pub fn id() -> (r: Transform)
        ensures
            r == (Transform { pos: Vec2 { x: Real32 { bits: 0 }, y: Real32 { bits: 0 } }, rotation: Real32 { bits: 0 } }),
    {
        Transform { pos: Vec2::zero(), rotation: Real32 { bits: 0 } }
    }

    /// A transform that only translates.
    pub fn pos(pos: Vec2) -> (r: Transform)
        ensures
            r == (Transform { pos, rotation: Real32 { bits: 0 } }),
    {
        Transform { pos, rotation: Real32 { bits: 0 } }
    }
}

/// An axis-aligned rectangle: top-left corner plus extent.
#[derive(PartialEq, Eq, Structural, Clone, Copy, Debug)]
pub struct Rect {
    pub pos: Vec2,
    pub w: Real32,
    pub h: Real32,
}

} // verus!
