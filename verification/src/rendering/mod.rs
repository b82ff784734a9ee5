//! Camera controls and the sizing of GPU buffers.
use vstd::prelude::*;

pub mod camera;

verus! {

/// Whether a buffer of `buffer_size` bytes is too small for `count` items of `item_size` bytes
/// each, so that it has to be made anew.
pub fn needs_larger_buffer(count: usize, item_size: usize, buffer_size: u64) -> (r: bool)
    requires
        count * item_size <= usize::MAX,
    ensures
        r == (count * item_size > buffer_size),
{
    let required_size = (count * item_size) as u64;
    required_size > buffer_size
}

} // verus!
