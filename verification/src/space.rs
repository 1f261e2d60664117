//! Numbers and places of the room, as the plain bits that are stored and compared.

use vstd::prelude::*;

verus! {

/// A single-precision number, held as its IEEE 754 bits. The library carries such numbers and
/// compares none of them by size.
#[derive(Clone, Copy, Debug, PartialEq, Eq, Structural)]
pub struct Scalar {
    pub bits: u32,
}

/// The bits of 1.
pub const ONE: u32 = 0x3f80_0000;

/// The bits of 0.5.
pub const HALF: u32 = 0x3f00_0000;

/// The number of the given bits.
pub open spec fn scalar(bits: u32) -> Scalar {
    Scalar { bits }
}

/// Three numbers: a place, three angles or three factors.
#[derive(Clone, Copy, Debug, PartialEq, Eq, Structural)]
pub struct Triple {
    pub x: Scalar,
    pub y: Scalar,
    pub z: Scalar,
}

/// What a thing's transform is made of.
#[derive(Clone, Copy, Debug, PartialEq, Eq, Structural)]
pub struct Pose {
    /// Where the thing stands.
    pub translation: Triple,
    /// Its rotation as the angles about X, Y and Z, in this order.
    pub angles: Triple,
    /// The vector part of its rotation's quaternion.
    pub turn: Triple,
    /// Its size along each of its axes.
    pub scale: Triple,
}

/// Where a thing of the room is put.
#[derive(Clone, Copy, Debug, PartialEq, Eq, Structural)]
pub struct Placement {
    pub translation: Triple,
    /// The angles about X, Y and Z that it is turned by, in this order, if it is turned.
    pub angles: Option<Triple>,
    /// Its size along each of its axes, if that is not its own.
    pub scale: Option<Triple>,
}

} // verus!
