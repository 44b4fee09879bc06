//! Server-side state of the Wayland protocol extensions the compositor
//! implements:
//!
//! - `wp_content_type_manager_v1`: surface content type hints
//! - `xdg_toplevel_drag_manager_v1`: drags from toplevel windows
//! - `wp_fifo_manager_v1`: FIFO presentation
//! - `wp_pointer_warp_v1`: pointer warping
//! - `xdg_toplevel_tag_manager_v1`: string tags on toplevels
//! - `ext_image_capture_source_v1`: capture sources
//! - `wp_commit_timing_manager_v1`: commit timestamps
use vstd::prelude::*;
use crate::error::CompositorError;

pub mod commit_timing;
pub mod content_type;
pub mod fifo;
pub mod image_capture;
pub mod pointer_warp;
pub mod toplevel_drag;
pub mod toplevel_tag;

verus! {

/// Register all protocol globals. Must be called during startup, before
/// the event loop runs.
pub fn init_protocols() -> (r: Result<(), CompositorError>)
    ensures
        r is Ok,
{
    content_type::register();
    toplevel_drag::register();
    fifo::register();
    pointer_warp::register();
    toplevel_tag::register();
    image_capture::register();
    commit_timing::register();
    Ok(())
}

} // verus!
