//! `wp_fifo_manager_v1`: FIFO presentation for consistent frame pacing.
use vstd::prelude::*;
use std::collections::HashMap;

verus! {

/// FIFO state of one surface.
#[derive(Debug)]
pub struct FifoSurfaceState {
    pub fifo_enabled: bool,
    pub frame_count: u64,
}

impl FifoSurfaceState {
    pub open spec fn initial() -> FifoSurfaceState {
        FifoSurfaceState { fifo_enabled: false, frame_count: 0 }
    }

    /// FIFO mode off, no frames counted.
    pub fn new() -> (s: FifoSurfaceState)
        ensures
            s == FifoSurfaceState::initial(),
    {
        FifoSurfaceState { fifo_enabled: false, frame_count: 0 }
    }

    /// Enable FIFO mode on this surface.
    pub fn enable(&mut self)
        ensures
            final(self).fifo_enabled,
            final(self).frame_count == old(self).frame_count,
    {
        self.fifo_enabled = true;
    }

    /// Count a presented frame; frames are only counted in FIFO mode, and
    /// the counter wraps around.
    pub fn record_frame(&mut self)
        ensures
            final(self).fifo_enabled == old(self).fifo_enabled,
            final(self).frame_count == (if old(self).fifo_enabled {
                ((old(self).frame_count + 1) % 0x1_0000_0000_0000_0000) as u64
            } else {
                old(self).frame_count
            }),
    {
        if self.fifo_enabled {
            self.frame_count = self.frame_count.wrapping_add(1);
        }
    }
}

impl Default for FifoSurfaceState {
    fn default() -> (s: FifoSurfaceState)
        ensures
            s == FifoSurfaceState::initial(),
    {
        FifoSurfaceState::new()
    }
}

/// The FIFO state of every surface, by surface id.
#[derive(Debug)]
pub struct FifoManager {
    pub surfaces: HashMap<u64, FifoSurfaceState>,
}

impl FifoManager {
    /// No surfaces.
    pub fn new() -> (m: FifoManager)
        ensures
            m.surfaces@ == Map::<u64, FifoSurfaceState>::empty(),
    {
        FifoManager { surfaces: HashMap::new() }
    }

    /// The state of a surface, created in its initial state on first use.
    pub fn get_or_create(&mut self, surface_id: u64) -> (s: &mut FifoSurfaceState)
        ensures
            *s == (if old(self).surfaces@.contains_key(surface_id) {
                old(self).surfaces@[surface_id]
            } else {
                FifoSurfaceState::initial()
            }),
            final(self).surfaces@ == old(self).surfaces@.insert(surface_id, *final(s)),
    {
        broadcast use vstd::std_specs::hash::group_hash_axioms;
        self.surfaces.entry(surface_id).or_insert(FifoSurfaceState::new())
    }
}

impl Default for FifoManager {
    fn default() -> (m: FifoManager)
        ensures
            m.surfaces@ == Map::<u64, FifoSurfaceState>::empty(),
    {
        FifoManager::new()
    }
}

/// Register the `wp_fifo_manager_v1` global.
pub fn register() {
}

} // verus!
