//! View state tracking: size hints, placement info, icon state.
use vstd::prelude::*;
use crate::geometry::{Rect, fits_i32, div_trunc};

verus! {

/// Size constraints reported by a client (ICCCM 4.1.2.3).
#[derive(Debug, Clone, Copy, PartialEq, Eq, Structural, Default)]
pub struct SizeHints {
    pub min_width: i32,
    pub min_height: i32,
    pub base_width: i32,
    pub base_height: i32,
    pub width_inc: i32,
    pub height_inc: i32,
    pub max_width: i32,
    pub max_height: i32,
}

/// `size` snapped to the nearest multiple of `inc` above `base` (ties and
/// the rounding of negative offsets follow Rust's truncating division).
pub open spec fn snap_axis(size: int, base: int, inc: int) -> int {
    if inc > 0 {
        base + div_trunc(size - base + div_trunc(inc, 2), inc) * inc
    } else {
        size
    }
}

/// The snapping arithmetic stays inside the `i32` range.
pub open spec fn snap_axis_fits(size: int, base: int, inc: int) -> bool {
    inc > 0 ==> {
        &&& fits_i32(size - base)
        &&& fits_i32(size - base + div_trunc(inc, 2))
        &&& fits_i32(div_trunc(size - base + div_trunc(inc, 2), inc) * inc)
        &&& fits_i32(snap_axis(size, base, inc))
    }
}

fn snap_one(size: i32, base: i32, inc: i32) -> (r: i32)
    requires
        snap_axis_fits(size as int, base as int, inc as int),
    ensures
        r == snap_axis(size as int, base as int, inc as int),
{
    if inc > 0 {
        base + ((size - base + inc / 2) / inc) * inc
    } else {
        size
    }
}

impl SizeHints {
    /// Compute effective minimum dimensions: a minimum below 1 falls back
    /// to 100 for the width and 60 for the height.
    pub fn effective_min_size(&self) -> (r: (i32, i32))
        ensures
            r.0 == (if self.min_width < 1 { 100 } else { self.min_width }),
            r.1 == (if self.min_height < 1 { 60 } else { self.min_height }),
    {
        let w = if self.min_width < 1 { 100 } else { self.min_width };
        let h = if self.min_height < 1 { 60 } else { self.min_height };
        (w, h)
    }

    /// Snap width/height to the client's size increments, so that terminal
    /// windows resize to whole character cells.
    pub fn snap_to_increments(&self, w: i32, h: i32) -> (r: (i32, i32))
        requires
            snap_axis_fits(w as int, self.base_width as int, self.width_inc as int),
            snap_axis_fits(h as int, self.base_height as int, self.height_inc as int),
        ensures
            r.0 == snap_axis(w as int, self.base_width as int, self.width_inc as int),
            r.1 == snap_axis(h as int, self.base_height as int, self.height_inc as int),
    {
        (snap_one(w, self.base_width, self.width_inc), snap_one(h, self.base_height, self.height_inc))
    }
}

/// Snapping a size that already lies on the increment grid leaves it
/// unchanged.
pub proof fn lemma_snap_on_grid_is_identity(base: int, inc: int, k: int)
    requires
        inc > 0,
        k >= 0,
    ensures
        snap_axis(base + k * inc, base, inc) == base + k * inc,
{
    let off = k * inc + div_trunc(inc, 2);
    assert(k * inc >= 0) by (nonlinear_arith)
        requires
            k >= 0,
            inc > 0,
    ;
    assert(0 <= inc / 2 < inc);
    assert(off / inc == k) by (nonlinear_arith)
        requires
            off == k * inc + inc / 2,
            0 <= inc / 2 < inc,
            inc > 0,
    ;
}

/// Saved placement information for restoring view positions after output
/// layout changes.
#[derive(Debug, Clone, Default)]
pub struct LastPlacement {
    /// Name of the output the view was on.
    pub output_name: Option<String>,
    /// Geometry in absolute layout coordinates.
    pub layout_geometry: Rect,
    /// Geometry relative to the output origin.
    pub relative_geometry: Rect,
}

/// Icon state for a view: its freedesktop icon name.
#[derive(Debug, Clone, Default)]
pub struct IconState {
    /// Freedesktop icon name.
    pub name: Option<String>,
}

} // verus!
