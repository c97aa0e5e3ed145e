//! The number of rows of a grid.

use vstd::prelude::*;

verus! {

/// Rows of a grid whose width, divided by its aspect ratio and cut off
/// toward zero, is `quotient`: that many, but never fewer than one.
pub open spec fn rows_for(quotient: int) -> int {
    if quotient < 1 {
        1
    } else {
        quotient
    }
}

/// Number of rows for a width-to-aspect quotient. A quotient below one, as
/// a narrow grid or a wide aspect ratio gives, still leaves one row, so that
/// no later step divides by zero.
pub fn clamp_rows(quotient: i32) -> (rows: i32)
    ensures
        rows == rows_for(quotient as int),
        rows >= 1,
{
    if quotient < 1 {
        1
    } else {
        quotient
    }
}

} // verus!
