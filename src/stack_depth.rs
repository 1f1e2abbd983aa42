use vstd::prelude::*;

verus! {

/// Distance in bytes from `bottom` up to `top`, or zero when `bottom` lies above `top`.
pub open spec fn depth_between(top: usize, bottom: usize) -> nat {
    if top >= bottom {
        (top - bottom) as nat
    } else {
        0
    }
}

/// Approximate stack depth from two frame addresses.
///
/// `top` is the address of a local in the calling frame and `bottom` the address of
/// a local in a frame entered from it. On a downward-growing stack the difference is
/// the room taken by the frames in between; where the stack grows the other way the
/// subtraction saturates at zero. The figure is an order of magnitude, not an exact
/// sum of frame sizes.
pub fn estimate_depth(top: usize, bottom: usize) -> (r: usize)
    ensures
        r as nat == depth_between(top, bottom),
        r as int >= 0,
        r <= top,
{
    top.saturating_sub(bottom)
}

} // verus!
