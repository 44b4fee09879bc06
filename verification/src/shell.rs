//! The XDG shell: setting it up, and the state changes that its requests
//! make to a view.
use vstd::prelude::*;
use crate::geometry::Rect;
use crate::edge::Edge;
use crate::types::ViewAxis;
use crate::view_state::SizeHints;
use crate::window::WindowView;

verus! {

/// Sets up the XDG shell handler; there is no state to prepare.
pub fn xdg_shell_init() -> (r: ())
    ensures
        r == (),
{
}

/// A configure request: the view's pending and current geometry become
/// `geometry`.
pub fn configure(view: &mut WindowView, geometry: Rect)
    ensures
        *final(view) == (WindowView { pending: geometry, current: geometry, ..*old(view) }),
{
    view.pending = geometry;
    view.current = geometry;
}

/// A close request: the view is no longer mapped nor minimized.
pub fn close(view: &mut WindowView)
    ensures
        *final(view) == (WindowView { mapped: false, minimized: false, ..*old(view) }),
{
    view.mapped = false;
    view.minimized = false;
}

/// Sets whether the view is fullscreen; going fullscreen unmaximizes and
/// untiles it.
pub fn set_fullscreen(view: &mut WindowView, fullscreen: bool)
    ensures
        fullscreen ==> *final(view) == (WindowView {
            fullscreen: true,
            maximized: ViewAxis::Unmaximized,
            tiled: Edge { bits: 0 },
            ..*old(view)
        }),
        !fullscreen ==> *final(view) == (WindowView { fullscreen: false, ..*old(view) }),
{
    view.fullscreen = fullscreen;
    if fullscreen {
        view.maximized = ViewAxis::Unmaximized;
        view.tiled = Edge::none();
    }
}

/// Sets the maximization state; maximizing on any axis untiles the view.
pub fn maximize(view: &mut WindowView, maximized: ViewAxis)
    ensures
        maximized != ViewAxis::Unmaximized ==> *final(view) == (WindowView {
            maximized,
            tiled: Edge { bits: 0 },
            ..*old(view)
        }),
        maximized == ViewAxis::Unmaximized ==> *final(view) == (WindowView { maximized, ..*old(view) }),
{
    view.maximized = maximized;
    if maximized != ViewAxis::Unmaximized {
        view.tiled = Edge::none();
    }
}

/// Tells the shell that the view gained or lost activation; the view
/// records nothing of it.
pub fn set_activated(view: &WindowView, activated: bool) {
}

/// Tells the client of the view's tiling; the view itself is unchanged.
pub fn notify_tiled(view: &WindowView) {
}

/// The client's size hints for the view: none are known, so every hint is
/// zero.
pub fn get_size_hints(view: &WindowView) -> (h: SizeHints)
    ensures
        h == (SizeHints {
            min_width: 0,
            min_height: 0,
            base_width: 0,
            base_height: 0,
            width_inc: 0,
            height_inc: 0,
            max_width: 0,
            max_height: 0,
        }),
{
    SizeHints {
        min_width: 0,
        min_height: 0,
        base_width: 0,
        base_height: 0,
        width_inc: 0,
        height_inc: 0,
        max_width: 0,
        max_height: 0,
    }
}

} // verus!
