//! Limiting a value to a range.

use core::cmp::Ordering;
use vstd::prelude::*;
use vstd::std_specs::cmp::PartialOrdSpec;

verus! {

/// `a` is ordered strictly before `b`.
pub open spec fn is_below<T: PartialOrd>(a: T, b: T) -> bool {
    a.partial_cmp_spec(&b) == Some(Ordering::Less)
}

/// `a` is ordered strictly after `b`.
pub open spec fn is_above<T: PartialOrd>(a: T, b: T) -> bool {
    a.partial_cmp_spec(&b) == Some(Ordering::Greater)
}

/// `val` limited to the range from `lo` to `hi`: the lower limit is looked at
/// first, so a value below `lo` gives `lo` even where `lo` lies above `hi`.
pub open spec fn clamp_spec<T: PartialOrd>(val: T, lo: T, hi: T) -> T {
    if is_below(val, lo) {
        lo
    } else if is_above(val, hi) {
        hi
    } else {
        val
    }
}

/// Limits `val` to the range from `lo` to `hi`.
pub fn clamp<T: PartialOrd>(val: T, lo: T, hi: T) -> (r: T)
    ensures
        T::obeys_partial_cmp_spec() ==> r == clamp_spec(val, lo, hi),
{
    if val < lo {
        lo
    } else if val > hi {
        hi
    } else {
        val
    }
}

/// On unsigned 32-bit numbers a range that starts at zero leaves the smaller
/// of the value and the upper limit.
pub proof fn lemma_clamp_from_zero(val: u32, hi: u32)
    ensures
        clamp_spec(val, 0u32, hi) == if val <= hi { val } else { hi },
{
}

} // verus!
