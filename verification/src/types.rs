use vstd::prelude::*;

use crate::high_precision::HighPrecision;

verus! {

/// A position in the plane.
#[derive(Debug, Default, Clone, Copy, PartialEq)]
pub struct Pos<T = HighPrecision> {
    pub x: T,
    pub y: T,
}

/// A width and a height.
#[derive(Debug, Default, Clone, Copy, PartialEq)]
pub struct Size<T = HighPrecision> {
    pub w: T,
    pub h: T,
}

/// An amount of pixels in each direction.
#[derive(Debug, Default, Clone, Copy, PartialEq, Eq, Structural)]
pub struct Dimensions {
    pub w: u64,
    pub h: u64,
}

/// A rectangular section of the plane.
#[derive(Debug, Default, Clone, Copy, PartialEq)]
pub struct View<T = HighPrecision> {
    pub start: Pos<T>,
    pub size: Size<T>,
}

} // verus!
