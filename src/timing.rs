use vstd::prelude::*;

verus! {

/// What `duration_compare` gives back when the difference would be negative:
/// the fallback when it is positive, and zero otherwise.
pub open spec fn fallback_value(on_error: Option<i64>) -> nat {
    match on_error {
        Some(v) => if v > 0 { v as nat } else { 0 },
        None => 0,
    }
}

/// Subtracts `right` from `left` (both in milliseconds) without going below
/// zero: where `right` exceeds `left` the result is `on_error` when that is
/// given and not negative, and zero otherwise.
pub fn duration_compare(left: u64, right: u64, on_error: Option<i64>) -> (r: u64)
    ensures
        left >= right ==> r == left - right,
        left < right ==> r == fallback_value(on_error),
{
    if left >= right {
        left - right
    } else {
        match on_error {
            Some(v) => if v > 0 { v as u64 } else { 0 },
            None => 0,
        }
    }
}

} // verus!
