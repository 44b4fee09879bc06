//! Window management: view geometry and state, and the stack of views.
//!
//! The shell that owns a view's surface (`ViewImpl`, where the view has
//! one) is told of configure, maximize and fullscreen requests before the
//! view records the new state.
use vstd::prelude::*;
use std::sync::Arc;
use crate::geometry::{Rect, div_trunc};
use crate::edge::{Edge, has_bit};
use crate::types::{ViewAxis, ViewType, ViewLayer, SsdMode, SsdPreference};
use crate::view_state::{LastPlacement, IconState, SizeHints};
use crate::workspace::Workspace;
use crate::output::Output;

verus! {

broadcast use vstd::std_specs::vec::group_vec_axioms;

/// The smallest width a view is given.
pub const MIN_VIEW_WIDTH: i32 = 100;
/// The smallest height a view is given.
pub const MIN_VIEW_HEIGHT: i32 = 60;
/// The width a view gets where nothing better is known.
pub const FALLBACK_WIDTH: i32 = 640;
/// The height a view gets where nothing better is known.
pub const FALLBACK_HEIGHT: i32 = 480;

/// What the shell that owns a view's surface does when the view is
/// configured, closed, activated, made fullscreen, maximized or tiled, and
/// the size hints it gives; each method is told the view by its
/// identifier. The view calls it before it records a move, a
/// maximization or a change of fullscreen.
pub trait ViewImpl: Send + Sync {
    fn configure(&self, view_id: u64, geometry: Rect);

    fn close(&self, view_id: u64);

    fn set_activated(&self, view_id: u64, activated: bool);

    fn set_fullscreen(&self, view_id: u64, fullscreen: bool);

    fn maximize(&self, view_id: u64, maximized: ViewAxis);

    fn notify_tiled(&self, view_id: u64);

    fn get_size_hints(&self, view_id: u64) -> SizeHints;
}

/// A toplevel view: its geometry, state, ownership, decorations and
/// properties, and the shell implementation it is told through, if any.
pub struct WindowView {
    pub id: u64,
    pub view_type: ViewType,
    pub impl_: Option<Box<dyn ViewImpl>>,
    pub current: Rect,
    pub pending: Rect,
    pub natural_geometry: Rect,
    pub last_placement: LastPlacement,
    pub mapped: bool,
    pub been_mapped: bool,
    pub minimized: bool,
    pub maximized: ViewAxis,
    pub fullscreen: bool,
    pub shaded: bool,
    pub tiled: Edge,
    pub workspace: Option<Arc<Workspace>>,
    pub output: Option<Arc<Output>>,
    pub layer: ViewLayer,
    pub ssd_mode: SsdMode,
    pub ssd_preference: SsdPreference,
    pub title: String,
    pub app_id: String,
    pub visible_on_all_workspaces: bool,
    pub icon: IconState,
}

/// The maximization state after a toggle: a view maximized on both axes is
/// unmaximized, any other is maximized on both.
pub open spec fn toggled_axis(a: ViewAxis) -> ViewAxis {
    if a == ViewAxis::Both {
        ViewAxis::Unmaximized
    } else {
        ViewAxis::Both
    }
}

/// Toggling maximization twice restores a view that was maximized on both
/// axes or not maximized at all (one maximized on a single axis ends up
/// unmaximized).
pub proof fn lemma_toggle_maximize_twice(a: ViewAxis)
    requires
        a == ViewAxis::Both || a == ViewAxis::Unmaximized,
    ensures
        toggled_axis(toggled_axis(a)) == a,
{
}

/// The empty rectangle at the origin.
pub open spec fn zero_rect() -> Rect {
    Rect { x: 0, y: 0, width: 0, height: 0 }
}

/// The geometry a view snapped to `edge` of the area `u` gets: the right
/// half for an edge with the right flag, else the left half for an edge
/// with the left flag, else the top half.
pub open spec fn snapped_geometry(edge: Edge, u: Rect) -> Rect {
    let x1 = u.x as int;
    let y1 = u.y as int;
    let x2 = u.x + u.width;
    let y2 = u.y + u.height;
    if has_bit(edge.bits, 8) {
        Rect {
            x: div_trunc(x1 + x2, 2) as i32,
            y: y1 as i32,
            width: div_trunc(x2 - x1, 2) as i32,
            height: (y2 - y1) as i32,
        }
    } else if has_bit(edge.bits, 4) {
        Rect { x: x1 as i32, y: y1 as i32, width: div_trunc(x2 - x1, 2) as i32, height: (y2 - y1) as i32 }
    } else {
        Rect { x: x1 as i32, y: y1 as i32, width: (x2 - x1) as i32, height: div_trunc(y2 - y1, 2) as i32 }
    }
}

impl WindowView {
    /// A new unmapped view with nothing known of it.
    pub fn new(id: u64, view_type: ViewType) -> (v: WindowView)
        ensures
            v.id == id,
            v.view_type == view_type,
            v.current == zero_rect() && v.pending == zero_rect() && v.natural_geometry == zero_rect(),
            v.last_placement.output_name is None,
            v.last_placement.layout_geometry == zero_rect(),
            v.last_placement.relative_geometry == zero_rect(),
            !v.mapped && !v.been_mapped && !v.minimized && !v.fullscreen && !v.shaded,
            v.maximized == ViewAxis::Unmaximized,
            v.tiled.bits == 0,
            v.workspace is None && v.output is None,
            v.layer == ViewLayer::Normal,
            v.ssd_mode == SsdMode::NoDecorations,
            v.ssd_preference == SsdPreference::Unset,
            v.title@.len() == 0 && v.app_id@.len() == 0,
            !v.visible_on_all_workspaces,
            v.icon.name is None,
            v.impl_ is None,
    {
        WindowView {
            id,
            view_type,
            impl_: None,
            current: Rect::new(0, 0, 0, 0),
            pending: Rect::new(0, 0, 0, 0),
            natural_geometry: Rect::new(0, 0, 0, 0),
            last_placement: LastPlacement {
                output_name: None,
                layout_geometry: Rect::new(0, 0, 0, 0),
                relative_geometry: Rect::new(0, 0, 0, 0),
            },
            mapped: false,
            been_mapped: false,
            minimized: false,
            maximized: ViewAxis::Unmaximized,
            fullscreen: false,
            shaded: false,
            tiled: Edge::none(),
            workspace: None,
            output: None,
            layer: ViewLayer::Normal,
            ssd_mode: SsdMode::NoDecorations,
            ssd_preference: SsdPreference::Unset,
            title: String::new(),
            app_id: String::new(),
            visible_on_all_workspaces: false,
            icon: IconState { name: None },
        }
    }

    /// A view floats when it is neither fullscreen, maximized nor tiled.
    pub fn is_floating(&self) -> (b: bool)
        ensures
            b == (!self.fullscreen && self.maximized == ViewAxis::Unmaximized && self.tiled.bits == 0),
    {
        !self.fullscreen && self.maximized == ViewAxis::Unmaximized && self.tiled.bits == 0
    }

    /// A record of the view, sharing its workspace and output, without its
    /// shell implementation (which stays with the view).
    pub fn duplicate(&self) -> (r: WindowView)
        ensures
            r == (WindowView { impl_: None, ..*self }),
    {
        WindowView {
            id: self.id,
            view_type: self.view_type,
            impl_: None,
            current: self.current,
            pending: self.pending,
            natural_geometry: self.natural_geometry,
            last_placement: LastPlacement {
                output_name: match &self.last_placement.output_name {
                    Some(n) => Some(n.clone()),
                    None => None,
                },
                layout_geometry: self.last_placement.layout_geometry,
                relative_geometry: self.last_placement.relative_geometry,
            },
            mapped: self.mapped,
            been_mapped: self.been_mapped,
            minimized: self.minimized,
            maximized: self.maximized,
            fullscreen: self.fullscreen,
            shaded: self.shaded,
            tiled: self.tiled,
            workspace: match &self.workspace {
                Some(w) => Some(Arc::clone(w)),
                None => None,
            },
            output: match &self.output {
                Some(o) => Some(Arc::clone(o)),
                None => None,
            },
            layer: self.layer,
            ssd_mode: self.ssd_mode,
            ssd_preference: self.ssd_preference,
            title: self.title.clone(),
            app_id: self.app_id.clone(),
            visible_on_all_workspaces: self.visible_on_all_workspaces,
            icon: IconState {
                name: match &self.icon.name {
                    Some(n) => Some(n.clone()),
                    None => None,
                },
            },
        }
    }

    /// Whether the view's surface exists: a view is always backed by one.
    fn surface_exists(&self) -> (b: bool)
        ensures
            b,
    {
        true
    }

    /// A view takes focus when it is mapped and its surface exists.
    pub fn is_focusable(&self) -> (b: bool)
        ensures
            b == self.mapped,
    {
        self.mapped && self.surface_exists()
    }

    /// Sets the pending geometry, after telling the shell implementation.
    pub fn move_resize(&mut self, geo: Rect)
        ensures
            *final(self) == (WindowView { pending: geo, ..*old(self) }),
    {
        match &self.impl_ {
            Some(imp) => imp.configure(self.id, geo),
            None => {},
        }
        self.pending = geo;
    }

    /// Moves the view to `(x, y)`, keeping its pending size.
    pub fn move_to(&mut self, x: i32, y: i32)
        ensures
            *final(self) == (WindowView {
                pending: Rect { x, y, width: old(self).pending.width, height: old(self).pending.height },
                ..*old(self)
            }),
    {
        let w = self.pending.width;
        let h = self.pending.height;
        self.move_resize(Rect::new(x, y, w, h));
    }

    /// Moves the view by `(dx, dy)`.
    pub fn move_relative(&mut self, dx: i32, dy: i32)
        requires
            i32::MIN <= old(self).pending.x + dx <= i32::MAX,
            i32::MIN <= old(self).pending.y + dy <= i32::MAX,
        ensures
            *final(self) == (WindowView {
                pending: Rect {
                    x: (old(self).pending.x + dx) as i32,
                    y: (old(self).pending.y + dy) as i32,
                    ..old(self).pending
                },
                ..*old(self)
            }),
    {
        let x = self.pending.x + dx;
        let y = self.pending.y + dy;
        self.move_to(x, y);
    }

    /// Records the maximization state, after telling the shell
    /// implementation.
    pub fn maximize(&mut self, axis: ViewAxis)
        ensures
            *final(self) == (WindowView { maximized: axis, ..*old(self) }),
    {
        match &self.impl_ {
            Some(imp) => imp.maximize(self.id, axis),
            None => {},
        }
        self.maximized = axis;
    }

    /// Records whether the view is fullscreen, after telling the shell
    /// implementation.
    pub fn set_fullscreen(&mut self, fs: bool)
        ensures
            *final(self) == (WindowView { fullscreen: fs, ..*old(self) }),
    {
        match &self.impl_ {
            Some(imp) => imp.set_fullscreen(self.id, fs),
            None => {},
        }
        self.fullscreen = fs;
    }

    /// Unmaximizes a view maximized on both axes; maximizes any other on
    /// both.
    pub fn toggle_maximize(&mut self)
        ensures
            *final(self) == (WindowView { maximized: toggled_axis(old(self).maximized), ..*old(self) }),
    {
        let new = if self.maximized == ViewAxis::Both {
            ViewAxis::Unmaximized
        } else {
            ViewAxis::Both
        };
        self.maximize(new);
    }

    /// Flips whether the view is fullscreen.
    pub fn toggle_fullscreen(&mut self)
        ensures
            *final(self) == (WindowView { fullscreen: !old(self).fullscreen, ..*old(self) }),
    {
        let cur = self.fullscreen;
        self.set_fullscreen(!cur);
    }

    /// Tiles the view to `edge` of the output's usable area (see
    /// `snapped_geometry`); a fullscreen view is left as it is.
    pub fn snap_to_edge(&mut self, edge: Edge, output: &Output)
        requires
            i32::MIN <= output.usable_area.x + output.usable_area.width <= i32::MAX,
            i32::MIN <= output.usable_area.y + output.usable_area.height <= i32::MAX,
            i32::MIN <= (output.usable_area.x + output.usable_area.width) - output.usable_area.x <= i32::MAX,
            i32::MIN <= (output.usable_area.y + output.usable_area.height) - output.usable_area.y <= i32::MAX,
            i32::MIN <= output.usable_area.x + (output.usable_area.x + output.usable_area.width) <= i32::MAX,
        ensures
            old(self).fullscreen ==> *final(self) == *old(self),
            !old(self).fullscreen ==> *final(self) == (WindowView {
                tiled: edge,
                pending: snapped_geometry(edge, output.usable_area),
                ..*old(self)
            }),
    {
        if self.fullscreen {
            return;
        }
        self.tiled = edge;
        let usable = output.usable_area();
        let x1 = usable.x;
        let y1 = usable.y;
        let x2 = usable.x + usable.width;
        let y2 = usable.y + usable.height;
        let geo = if edge.contains(Edge::right()) {
            Rect::new((x1 + x2) / 2, y1, (x2 - x1) / 2, y2 - y1)
        } else if edge.contains(Edge::left()) {
            Rect::new(x1, y1, (x2 - x1) / 2, y2 - y1)
        } else {
            Rect::new(x1, y1, x2 - x1, (y2 - y1) / 2)
        };
        self.move_resize(geo);
    }
}

/// The views of the compositor, bottom to top.
pub struct ViewManager {
    pub views: Vec<Arc<WindowView>>,
}

impl ViewManager {
    /// No views.
    pub fn new() -> (m: ViewManager)
        ensures
            m.views@.len() == 0,
    {
        ViewManager { views: Vec::new() }
    }

    /// Puts a view on top.
    pub fn add(&mut self, view: Arc<WindowView>)
        ensures
            final(self).views@ == old(self).views@.push(view),
    {
        self.views.push(view);
    }

    /// Removes every view with the given id, keeping the order of the
    /// others.
    pub fn remove(&mut self, id: u64)
        ensures
            final(self).views@ == old(self).views@.filter(|v: Arc<WindowView>| v.id != id),
    {
        let ghost orig = self.views@;
        let mut kept: Vec<Arc<WindowView>> = Vec::new();
        let mut rest: Vec<Arc<WindowView>> = Vec::new();
        std::mem::swap(&mut rest, &mut self.views);
        let ghost mut k: int = 0;
        assert(orig.take(0).filter(|v: Arc<WindowView>| v.id != id) =~= Seq::<Arc<WindowView>>::empty()) by {
            reveal_with_fuel(Seq::<_>::filter, 1);
        }
        while rest.len() > 0
            invariant
                0 <= k <= orig.len(),
                rest@.len() + k == orig.len(),
                rest@ == orig.skip(k),
                kept@ == orig.take(k).filter(|v: Arc<WindowView>| v.id != id),
            decreases rest.len(),
        {
            let v = rest.remove(0);
            proof {
                assert(v == orig[k]);
                assert(rest@ =~= orig.skip(k + 1));
                assert(orig.take(k + 1).drop_last() =~= orig.take(k));
                reveal_with_fuel(Seq::<_>::filter, 1);
            }
            if v.id != id {
                kept.push(v);
            }
            proof {
                k = k + 1;
            }
        }
        assert(orig.take(k) =~= orig);
        self.views = kept;
    }

    /// The top view, where there is one.
    pub fn topmost(&self) -> (r: Option<&Arc<WindowView>>)
        ensures
            r == (if self.views@.len() > 0 { Some(&self.views@.last()) } else { None }),
    {
        if self.views.len() > 0 {
            Some(&self.views[self.views.len() - 1])
        } else {
            None
        }
    }
}

impl Default for ViewManager {
    fn default() -> (m: ViewManager)
        ensures
            m.views@.len() == 0,
    {
        ViewManager::new()
    }
}


/// Snapping keeps a view inside the area it is snapped to. An edge with
/// the right flag gives the right half: the view ends at the area's right
/// side (up to rounding of an odd width), at least half a width in from
/// its left side, with half the width and the full height. An edge with
/// the left flag and not the right gives the left half, starting at the
/// area's left side. Any other edge gives the top half, full width.
pub proof fn lemma_snap_halves(edge: Edge, u: Rect)
    requires
        u.width >= 0,
        u.height >= 0,
        u.x + u.width <= i32::MAX,
        u.y + u.height <= i32::MAX,
        i32::MIN <= u.x + (u.x + u.width) <= i32::MAX,
    ensures
        ({
            let r = snapped_geometry(edge, u);
            let x2 = u.x + u.width;
            let y2 = u.y + u.height;
            &&& u.x <= r.x && r.x + r.width <= x2
            &&& u.y == r.y && r.y + r.height <= y2
            &&& has_bit(edge.bits, 8) ==> {
                &&& r.width * 2 <= u.width <= r.width * 2 + 1
                &&& x2 - 1 <= r.x + r.width
                &&& r.x - u.x >= r.width
                &&& r.height == u.height
            }
            &&& !has_bit(edge.bits, 8) && has_bit(edge.bits, 4) ==> {
                &&& r.x == u.x
                &&& r.width * 2 <= u.width <= r.width * 2 + 1
                &&& r.height == u.height
            }
            &&& !has_bit(edge.bits, 8) && !has_bit(edge.bits, 4) ==> {
                &&& r.x == u.x
                &&& r.width == u.width
                &&& r.height * 2 <= u.height <= r.height * 2 + 1
            }
        }),
{
}

} // verus!
