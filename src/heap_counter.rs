use vstd::prelude::*;

verus! {

/// Number of values a `usize` holds.
pub open spec fn word_modulus() -> int {
    usize::MAX as int + 1
}

/// The live-byte counter after an allocation of `size` bytes has been recorded.
///
/// The counter is a machine word and wraps as an atomic add does.
pub open spec fn charged(live: usize, size: usize) -> usize {
    if live as int + size as int > usize::MAX {
        (live as int + size as int - word_modulus()) as usize
    } else {
        (live + size) as usize
    }
}

/// The live-byte counter after a deallocation of `size` bytes has been recorded.
pub open spec fn released(live: usize, size: usize) -> usize {
    if size > live {
        (live as int - size as int + word_modulus()) as usize
    } else {
        (live - size) as usize
    }
}

/// New value of the live-byte counter when an allocation of `size` bytes is recorded.
///
/// This is the update that the process-wide allocation hook applies, in one atomic
/// step, to every allocation it forwards, whether or not the allocation succeeded.
pub fn record_alloc(live: usize, size: usize) -> (r: usize)
    ensures
        r == charged(live, size),
        live as int + size as int <= usize::MAX ==> r == live + size,
{
    live.wrapping_add(size)
}

/// New value of the live-byte counter when a deallocation of `size` bytes is recorded.
pub fn record_dealloc(live: usize, size: usize) -> (r: usize)
    ensures
        r == released(live, size),
        size <= live ==> r == live - size,
{
    live.wrapping_sub(size)
}

} // verus!
