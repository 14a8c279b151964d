//! The thresholding step: a blended sample is kept when it falls in the
//! half-open band `[lower, upper)`.
//!
//! Sample magnitudes are compared through a total-order key: the bit pattern
//! of a finite IEEE 754 single-precision value, mapped so that unsigned
//! comparison of keys agrees with the numeric order of the values (negative
//! patterns are complemented, non-negative patterns get the top bit set).
//! The caller turns each scalar into its key once; every comparison the
//! library makes is then plain integer arithmetic.

use vstd::prelude::*;

verus! {

/// The total-order key of a single-precision bit pattern: complement a
/// pattern with the sign bit set, otherwise set the top bit.
pub open spec fn spec_order_key(bits: u32) -> u32 {
    if bits >= 0x8000_0000 {
        !bits
    } else {
        bits | 0x8000_0000
    }
}

/// Maps a scalar's bit pattern to its total-order key, so that unsigned
/// comparison of keys matches numeric comparison of the finite values the
/// patterns encode.
pub fn order_key(bits: u32) -> (r: u32)
    ensures
        r == spec_order_key(bits),
{
    if bits >= 0x8000_0000 {
        !bits
    } else {
        bits | 0x8000_0000
    }
}

/// The half-open band test: a value is kept iff it is at least the lower
/// bound and strictly below the upper bound.
pub fn in_band(value_key: u32, lower_key: u32, upper_key: u32) -> (r: bool)
    ensures
        r == (lower_key <= value_key && value_key < upper_key),
{
    lower_key <= value_key && value_key < upper_key
}

/// Thresholds a whole grid of blended sample keys: the output has the
/// input's shape, and a cell is `true` exactly when its key falls in the
/// half-open band.
pub fn threshold_grid(keys: &Vec<Vec<u32>>, lower_key: u32, upper_key: u32) -> (r: Vec<Vec<bool>>)
    ensures
        r@.len() == keys@.len(),
        forall|i: int| 0 <= i < r@.len() ==> (#[trigger] r@[i])@.len() == keys@[i]@.len(),
        forall|i: int, j: int|
            #![trigger r@[i]@[j]]
            0 <= i < r@.len() && 0 <= j < r@[i]@.len() ==> r@[i]@[j] == (lower_key
                <= keys@[i]@[j] && keys@[i]@[j] < upper_key),
{
    let mut out: Vec<Vec<bool>> = Vec::new();
    let mut i: usize = 0;
    while i < keys.len()
        invariant
            i <= keys@.len(),
            out@.len() == i,
            forall|a: int| 0 <= a < i ==> (#[trigger] out@[a])@.len() == keys@[a]@.len(),
            forall|a: int, b: int|
                #![trigger out@[a]@[b]]
                0 <= a < i && 0 <= b < out@[a]@.len() ==> out@[a]@[b] == (lower_key
                    <= keys@[a]@[b] && keys@[a]@[b] < upper_key),
        decreases keys@.len() - i,
    {
        let row_len = keys[i].len();
        let mut row: Vec<bool> = Vec::new();
        let mut j: usize = 0;
        while j < row_len
            invariant
                i < keys@.len(),
                row_len == keys@[i as int]@.len(),
                j <= row_len,
                row@.len() == j,
                forall|b: int|
                    #![trigger row@[b]]
                    0 <= b < j ==> row@[b] == (lower_key <= keys@[i as int]@[b]
                        && keys@[i as int]@[b] < upper_key),
            decreases row_len - j,
        {
            let k = keys[i][j];
            row.push(in_band(k, lower_key, upper_key));
            j += 1;
        }
        out.push(row);
        i += 1;
    }
    out
}

} // verus!
