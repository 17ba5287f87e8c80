//! Drawing points by rejection.
//!
//! A point inside the unit ball, or the unit disk, is found by drawing
//! points of the cube, or the square, around it until one lies inside. The
//! caller draws; whether a draw is kept is decided here.

use crate::scalar::{below, is_below, ONE};
use vstd::prelude::*;

verus! {

/// Tells whether a drawn point is kept: a point lies inside the unit ball
/// when its squared length is a number below one.
pub fn inside_unit(squared_length: Option<i64>) -> (kept: bool)
    ensures
        kept == below(squared_length, ONE),
{
    is_below(squared_length, ONE)
}

} // verus!
