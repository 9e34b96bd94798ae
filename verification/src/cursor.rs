//! The resume cursor: turning the store's committed pixel count into the
//! number of leading input records to discard on restart.

use vstd::prelude::*;

verus! {

/// What the skip count must be for a reported pixel count: the count itself,
/// clamped into `usize`, and zero when the store is disabled or unreachable
/// and reported nothing.
pub open spec fn skip_count_spec(count: Option<i64>) -> int {
    match count {
        Option::None => 0,
        Option::Some(c) => if c < 0 {
            0
        } else if c > usize::MAX {
            usize::MAX as int
        } else {
            c as int
        },
    }
}

/// Compute how many leading records to discard without decoding, from the
/// store's committed pixel count (`None` when no store is configured or it
/// reported nothing). Ingestion then resumes with `pixel_id` values aligned
/// to the input ordinals.
pub fn compute_skip_count(count: Option<i64>) -> (n: usize)
    ensures
        n as int == skip_count_spec(count),
{
    match count {
        None => 0,
        Some(c) => {
            if c <= 0 {
                0
            } else if (c as u64) > (usize::MAX as u64) {
                usize::MAX
            } else {
                c as usize
            }
        },
    }
}

} // verus!
