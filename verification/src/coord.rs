//! Control points over an order-preserving 64-bit key encoding.
//!
//! Coordinate components enter the library as 64-bit keys produced by a
//! strictly order-preserving encoding of the underlying numeric values, so
//! comparing keys compares values. Every key that denotes a real
//! (not-a-number-free) value lies in the closed range
//! `REAL_KEY_MIN ..= REAL_KEY_MAX`; keys outside that range are the images
//! of the encoding's not-a-number payloads and are rejected wherever the
//! library meets them.

use vstd::prelude::*;

use crate::errors::PiecewiseErr;

verus! {

/// Smallest key that denotes a real value (the key of negative infinity).
pub const REAL_KEY_MIN: u64 = 0x000F_FFFF_FFFF_FFFF;

/// Largest key that denotes a real value (the key of positive infinity).
pub const REAL_KEY_MAX: u64 = 0xFFF0_0000_0000_0000;

/// The key of the value zero.
pub const ZERO_KEY: u64 = 0x8000_0000_0000_0000;

/// A key denotes a real value exactly when it lies in the real range.
pub open spec fn is_real(k: u64) -> bool {
    REAL_KEY_MIN <= k && k <= REAL_KEY_MAX
}

/// Run-time twin of [`is_real`].
pub fn key_is_real(k: u64) -> (b: bool)
    ensures
        b == is_real(k),
{
    REAL_KEY_MIN <= k && k <= REAL_KEY_MAX
}

/// An (x, y) control point whose components are keys of real values.
#[derive(Clone, Copy, Debug, PartialEq, Eq)]
pub struct Coord {
    x: u64,
    y: u64,
}

impl Coord {
    /// The key of the x component.
    pub closed spec fn x_key(self) -> u64 {
        self.x
    }

    /// The key of the y component.
    pub closed spec fn y_key(self) -> u64 {
        self.y
    }

    /// Both components denote real values.
    pub open spec fn wf(self) -> bool {
        is_real(self.x_key()) && is_real(self.y_key())
    }

    /// Checked constructor: rejects a component whose key does not denote a
    /// real value.
    pub fn new(x: u64, y: u64) -> (r: Result<Coord, PiecewiseErr>)
        ensures
            r is Ok <==> (is_real(x) && is_real(y)),
            r is Err ==> r == Err::<Coord, PiecewiseErr>(PiecewiseErr::InputNaN),
            r matches Ok(c) ==> c.x_key() == x && c.y_key() == y,
    {
        if key_is_real(x) && key_is_real(y) {
            Ok(Coord { x, y })
        } else {
            Err(PiecewiseErr::InputNaN)
        }
    }

    /// Unchecked constructor, meant for keys already known to denote real
    /// values, such as compile-time constants. There is no run-time check:
    /// the obligation is on the caller, stated here as a precondition, and a
    /// caller that breaks it may build a point the rest of the library never
    /// promises anything about.
    pub fn new_unchecked(x: u64, y: u64) -> (c: Coord)
        requires
            is_real(x),
            is_real(y),
        ensures
            c.x_key() == x,
            c.y_key() == y,
    {
        Coord { x, y }
    }

    /// The origin: both components hold the key of zero.
    pub fn zero() -> (c: Coord)
        ensures
            c.x_key() == ZERO_KEY,
            c.y_key() == ZERO_KEY,
    {
        Coord { x: ZERO_KEY, y: ZERO_KEY }
    }

    /// x component accessor.
    pub fn x(&self) -> (k: u64)
        ensures
            k == self.x_key(),
    {
        self.x
    }

    /// y component accessor.
    pub fn y(&self) -> (k: u64)
        ensures
            k == self.y_key(),
    {
        self.y
    }

    /// Two control points with equal component keys are the same point.
    pub proof fn lemma_eq(a: Coord, b: Coord)
        requires
            a.x_key() == b.x_key(),
            a.y_key() == b.y_key(),
        ensures
            a == b,
    {
    }
}

/// The control point whose components are the given pair of keys.
pub closed spec fn coord_of_pair(pr: (u64, u64)) -> Coord {
    Coord { x: pr.0, y: pr.1 }
}

/// The components of [`coord_of_pair`] are the given keys.
pub proof fn lemma_coord_of_pair(pr: (u64, u64))
    ensures
        coord_of_pair(pr).x_key() == pr.0,
        coord_of_pair(pr).y_key() == pr.1,
{
}

/// Pointwise [`coord_of_pair`] over a sequence of pairs.
pub open spec fn coords_of(pairs: Seq<(u64, u64)>) -> Seq<Coord> {
    pairs.map_values(|pr: (u64, u64)| coord_of_pair(pr))
}

/// The pair of component keys of a control point.
pub open spec fn pair_of(c: Coord) -> (u64, u64) {
    (c.x_key(), c.y_key())
}

} // verus!
