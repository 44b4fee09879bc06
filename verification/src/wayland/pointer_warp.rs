//! `wp_pointer_warp_v1`: clients ask to move the pointer to a position on
//! one of their surfaces.
use vstd::prelude::*;

verus! {

/// Register the `wp_pointer_warp_manager_v1` global.
pub fn register() {
}

} // verus!
