//! `xdg_toplevel_drag_manager_v1`: drag operations started from toplevel
//! windows, with drag offsets.
use vstd::prelude::*;

verus! {

/// State of an active toplevel drag session.
#[derive(Debug)]
pub struct ToplevelDragState {
    pub toplevel_id: u64,
    pub serial: u32,
    pub x_offset: i32,
    pub y_offset: i32,
    pub active: bool,
}

impl ToplevelDragState {
    /// A new, active drag of the given toplevel with zero offsets.
    pub fn new(toplevel_id: u64, serial: u32) -> (s: ToplevelDragState)
        ensures
            s.toplevel_id == toplevel_id,
            s.serial == serial,
            s.x_offset == 0,
            s.y_offset == 0,
            s.active,
    {
        ToplevelDragState { toplevel_id, serial, x_offset: 0, y_offset: 0, active: true }
    }

    /// Take the offsets of a configure event.
    pub fn configure(&mut self, x_offset: i32, y_offset: i32)
        ensures
            final(self).x_offset == x_offset,
            final(self).y_offset == y_offset,
            final(self).toplevel_id == old(self).toplevel_id,
            final(self).serial == old(self).serial,
            final(self).active == old(self).active,
    {
        self.x_offset = x_offset;
        self.y_offset = y_offset;
    }

    /// Mark the drag as finished.
    pub fn finish(&mut self)
        ensures
            !final(self).active,
            final(self).toplevel_id == old(self).toplevel_id,
            final(self).serial == old(self).serial,
            final(self).x_offset == old(self).x_offset,
            final(self).y_offset == old(self).y_offset,
    {
        self.active = false;
    }
}

/// Register the `xdg_toplevel_drag_manager_v1` global.
pub fn register() {
}

} // verus!
