//! Core enumerated types for window state, input, output and focus.
use vstd::prelude::*;

verus! {

/// The maximization state of a view along each axis.
#[derive(Debug, Clone, Copy, PartialEq, Eq, Structural, Hash)]
pub enum ViewAxis {
    /// Not maximized on any axis.
    Unmaximized,
    /// Maximized horizontally only.
    Horizontal,
    /// Maximized vertically only.
    Vertical,
    /// Maximized on both axes.
    Both,
}

impl ViewAxis {
    /// Returns `true` if horizontally maximized.
    pub fn is_horizontal(&self) -> (b: bool)
        ensures
            b == (*self == ViewAxis::Horizontal || *self == ViewAxis::Both),
    {
        match self {
            ViewAxis::Horizontal | ViewAxis::Both => true,
            _ => false,
        }
    }

    /// Returns `true` if vertically maximized.
    pub fn is_vertical(&self) -> (b: bool)
        ensures
            b == (*self == ViewAxis::Vertical || *self == ViewAxis::Both),
    {
        match self {
            ViewAxis::Vertical | ViewAxis::Both => true,
            _ => false,
        }
    }
}

/// Server-side decoration mode.
#[derive(Debug, Clone, Copy, PartialEq, Eq, Structural, Hash)]
pub enum SsdMode {
    /// No server-side decorations.
    NoDecorations,
    /// Border only (no titlebar).
    Border,
    /// Full decorations: titlebar + border + buttons.
    Full,
}

/// Client decoration preference.
#[derive(Debug, Clone, Copy, PartialEq, Eq, Structural, Hash)]
pub enum SsdPreference {
    /// Client wants to draw its own decorations.
    Client,
    /// Client requests server-side decorations.
    Server,
    /// No preference expressed yet.
    Unset,
}

/// View stacking layer for z-ordering, from bottom to top.
#[derive(Debug, Clone, Copy, PartialEq, Eq, Structural, Hash, PartialOrd, Ord)]
pub enum ViewLayer {
    /// Always behind normal windows.
    AlwaysOnBottom,
    /// Normal stacking.
    Normal,
    /// Always above normal windows.
    AlwaysOnTop,
}

/// The type of a Wayland surface view.
#[derive(Debug, Clone, Copy, PartialEq, Eq, Structural, Hash)]
pub enum ViewType {
    /// XDG shell toplevel.
    XdgShell,
    /// XWayland surface.
    XWayland,
    /// Unmanaged XWayland override-redirect surface.
    XWaylandUnmanaged,
    /// Layer shell surface.
    LayerShell,
}

/// Window type classification for window rules matching.
#[derive(Debug, Clone, Copy, PartialEq, Eq, Structural, Hash)]
pub enum WindowType {
    Normal,
    Dialog,
    Utility,
    Toolbar,
    Splash,
    Menu,
    DropdownMenu,
    PopupMenu,
    Tooltip,
    Notification,
    Combo,
    Dnd,
}

/// Placement policy for new windows.
#[derive(Debug, Clone, Copy, PartialEq, Eq, Structural, Hash)]
pub enum PlacementPolicy {
    /// Center on the output.
    Center,
    /// Position near the cursor.
    Cursor,
    /// Automatic placement (first-fit).
    Automatic,
    /// Cascaded placement.
    Cascade,
}

/// Tiling event notification mode for clients.
#[derive(Debug, Clone, Copy, PartialEq, Eq, Structural, Hash)]
pub enum TilingEventsMode {
    /// Never notify clients of tiling state.
    Never,
    /// Notify only for region-snapped windows.
    Region,
    /// Notify only for edge-snapped windows.
    Edge,
    /// Always notify.
    Always,
}

/// Server-side input interaction mode.
#[derive(Debug, Clone, Copy, PartialEq, Eq, Structural, Hash)]
pub enum InputMode {
    /// Normal passthrough to clients.
    Passthrough,
    /// Interactive move in progress.
    Move,
    /// Interactive resize in progress.
    Resize,
    /// Menu navigation.
    Menu,
    /// Window switching (Alt-Tab).
    Cycle,
}

/// Server-side cursor shapes.
#[derive(Debug, Clone, Copy, PartialEq, Eq, Structural, Hash)]
pub enum CursorShape {
    Default,
    Move,
    /// Resize cursor with edge specification.
    Resize(ResizeEdge),
    Pointer,
    Crosshair,
    Text,
    Wait,
    Help,
    NotAllowed,
    Nwse,
    Nesw,
    Ns,
    We,
    AllScroll,
    ZoomIn,
    ZoomOut,
}

/// Input device type classification.
#[derive(Debug, Clone, Copy, PartialEq, Eq, Structural, Hash)]
pub enum InputDeviceType {
    Keyboard,
    Pointer,
    Touch,
    TabletTool,
    TabletPad,
    Switch,
}

/// Output transform (rotation + reflection).
#[derive(Debug, Clone, Copy, PartialEq, Eq, Structural, Hash)]
pub enum OutputTransform {
    Normal,
    Rotate90,
    Rotate180,
    Rotate270,
    Flipped,
    Flipped90,
    Flipped180,
    Flipped270,
}

/// Whether a view wants focus.
#[derive(Debug, Clone, Copy, PartialEq, Eq, Structural, Hash)]
pub enum ViewWantsFocus {
    /// Always accepts focus.
    Always,
    /// Likely accepts focus (override-redirect windows).
    Likely,
    /// Never accepts focus (desktop, dock, etc.).
    Never,
}

/// A resize edge or combination of edges, mirroring the wlroots/XDG shell
/// resize edge values.
#[derive(Debug, Clone, Copy, PartialEq, Eq, Structural, Hash)]
pub enum ResizeEdge {
    /// No edge (invalid), value 0.
    NoEdge,
    /// Top edge, value 1.
    Top,
    /// Bottom edge, value 2.
    Bottom,
    /// Left edge, value 4.
    Left,
    /// Top-left corner, value 5.
    TopLeft,
    /// Bottom-left corner, value 6.
    BottomLeft,
    /// Right edge, value 8.
    Right,
    /// Top-right corner, value 9.
    TopRight,
    /// Bottom-right corner, value 10.
    BottomRight,
}

/// The wlroots/xdg-shell integer of each resize edge.
pub open spec fn resize_edge_value(e: ResizeEdge) -> u32 {
    match e {
        ResizeEdge::NoEdge => 0,
        ResizeEdge::Top => 1,
        ResizeEdge::Bottom => 2,
        ResizeEdge::Left => 4,
        ResizeEdge::TopLeft => 5,
        ResizeEdge::BottomLeft => 6,
        ResizeEdge::Right => 8,
        ResizeEdge::TopRight => 9,
        ResizeEdge::BottomRight => 10,
    }
}

/// The values that name a resize edge.
pub open spec fn is_resize_edge_value(v: u32) -> bool {
    v == 1 || v == 2 || v == 4 || v == 5 || v == 6 || v == 8 || v == 9 || v == 10
}

impl ResizeEdge {
    /// Convert from the wlroots/xdg-shell resize edge integer; any value
    /// that names no edge gives `None`.
    pub fn from_wlr(edge: u32) -> (e: ResizeEdge)
        ensures
            is_resize_edge_value(edge) ==> resize_edge_value(e) == edge,
            !is_resize_edge_value(edge) ==> e == ResizeEdge::NoEdge,
    {
        match edge {
            1 => ResizeEdge::Top,
            2 => ResizeEdge::Bottom,
            4 => ResizeEdge::Left,
            5 => ResizeEdge::TopLeft,
            6 => ResizeEdge::BottomLeft,
            8 => ResizeEdge::Right,
            9 => ResizeEdge::TopRight,
            10 => ResizeEdge::BottomRight,
            _ => ResizeEdge::NoEdge,
        }
    }

    /// Convert to the wlroots/xdg-shell resize edge integer.
    pub fn to_wlr(self) -> (v: u32)
        ensures
            v == resize_edge_value(self),
    {
        match self {
            ResizeEdge::NoEdge => 0,
            ResizeEdge::Top => 1,
            ResizeEdge::Bottom => 2,
            ResizeEdge::Left => 4,
            ResizeEdge::TopLeft => 5,
            ResizeEdge::BottomLeft => 6,
            ResizeEdge::Right => 8,
            ResizeEdge::TopRight => 9,
            ResizeEdge::BottomRight => 10,
        }
    }
}

/// Converting an edge to its integer and back gives the same edge: the
/// integer of an edge is one that names an edge (none for `NoEdge`), and no
/// two edges share an integer.
pub proof fn lemma_resize_edge_round_trip(e: ResizeEdge, f: ResizeEdge)
    ensures
        e != ResizeEdge::NoEdge ==> is_resize_edge_value(resize_edge_value(e)),
        e == ResizeEdge::NoEdge ==> !is_resize_edge_value(resize_edge_value(e)),
        resize_edge_value(e) == resize_edge_value(f) ==> e == f,
{
}

} // verus!
