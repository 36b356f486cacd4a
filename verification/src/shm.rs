//! Records of the shared eye-swap ring.

use vstd::prelude::*;

verus! {

/// Eye code of a left-eye swap.
pub const EYE_LEFT: u32 = 0;

/// Eye code of a right-eye swap.
pub const EYE_RIGHT: u32 = 1;

/// One eye-swap command drained from the ring.
#[derive(Clone, Copy, Debug, PartialEq, Eq, Structural)]
pub struct Swap {
    /// `EYE_LEFT` or `EYE_RIGHT`.
    pub eye: u32,
    /// The producer's submit time (monotonic microseconds), when it stamps.
    pub t_us: Option<u64>,
    /// Position of the swap in the ring's own count.
    pub seq: u32,
}

} // verus!
