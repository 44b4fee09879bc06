//! Server-side decorations: the titlebar and borders drawn around a view.
use vstd::prelude::*;
use crate::geometry::Border;
use crate::window::WindowView;

verus! {

/// Width of the border on each side, in pixels.
pub const SSD_BORDER_WIDTH: i32 = 1;

/// Height of the titlebar, in pixels.
pub const SSD_TITLEBAR_HEIGHT: i32 = 26;

/// The decorations of one view.
pub struct Ssd {
    pub view_id: u64,
    pub titlebar_height: i32,
    pub border_width: i32,
    pub margin: Border,
}

impl Ssd {
    /// Decorations for `view`: a border on each side, and above the top
    /// border the titlebar.
    pub fn create(view: &WindowView) -> (s: Self)
        ensures
            s.view_id == view.id,
            s.titlebar_height == SSD_TITLEBAR_HEIGHT,
            s.border_width == SSD_BORDER_WIDTH,
            s.margin == (Border {
                left: SSD_BORDER_WIDTH,
                right: SSD_BORDER_WIDTH,
                top: 27,
                bottom: SSD_BORDER_WIDTH,
            }),
    {
        let border = SSD_BORDER_WIDTH;
        let titlebar = SSD_TITLEBAR_HEIGHT;
        Ssd {
            view_id: view.id,
            titlebar_height: titlebar,
            border_width: border,
            margin: Border { left: border, right: border, top: border + titlebar, bottom: border },
        }
    }

    /// The space the decorations take on each side of the view.
    pub fn get_margin(&self) -> (b: Border)
        ensures
            b == self.margin,
    {
        self.margin
    }

    /// Release the decorations (nothing is held).
    pub fn destroy(&self) {
    }

    /// The extents of the decorations: their margin.
    pub fn extents(&self) -> (b: Border)
        ensures
            b == self.margin,
    {
        self.margin
    }
}

} // verus!
