//! The actions that key bindings, mouse bindings and menus trigger.
use vstd::prelude::*;
use std::sync::Arc;
use crate::edge::Edge;
use crate::geometry::{Rect, fits_i32};
use crate::window::{WindowView, toggled_axis, snapped_geometry};
use crate::focus::{FocusManager, keeps_focus};
use crate::workspace::{WorkspaceManager, first_named, relative_index};

verus! {

/// An action of a binding or a menu item.
#[derive(Debug, Clone)]
pub enum Action {
    Close,
    Minimize,
    ToggleMaximize,
    ToggleFullscreen,
    ToggleDecorations,
    ToggleAlwaysOnTop,
    ToggleAlwaysOnBottom,
    ToggleShade,
    ToggleOmnipresent,
    SnapToEdge(Edge),
    MoveToEdge(Edge),
    GrowToEdge(Edge),
    ShrinkToEdge(Edge),
    MoveRelative(i32, i32),
    Focus,
    Raise,
    Lower,
    Execute(String),
    ShowMenu(String),
    RootMenu,
    ClientMenu,
    GoToDesktop(String),
    SendToDesktop(String),
    WorkspaceSwitch(i32),
    Exit,
    Reconfigure,
    SessionLock,
    ToggleShowDesktop,
    CycleWindows(String),
    None_,
}

impl Action {
    /// A copy of the action.
    pub fn duplicate(&self) -> (a: Action)
        ensures
            a == *self,
    {
        match self {
            Action::Close => Action::Close,
            Action::Minimize => Action::Minimize,
            Action::ToggleMaximize => Action::ToggleMaximize,
            Action::ToggleFullscreen => Action::ToggleFullscreen,
            Action::ToggleDecorations => Action::ToggleDecorations,
            Action::ToggleAlwaysOnTop => Action::ToggleAlwaysOnTop,
            Action::ToggleAlwaysOnBottom => Action::ToggleAlwaysOnBottom,
            Action::ToggleShade => Action::ToggleShade,
            Action::ToggleOmnipresent => Action::ToggleOmnipresent,
            Action::SnapToEdge(e) => Action::SnapToEdge(*e),
            Action::MoveToEdge(e) => Action::MoveToEdge(*e),
            Action::GrowToEdge(e) => Action::GrowToEdge(*e),
            Action::ShrinkToEdge(e) => Action::ShrinkToEdge(*e),
            Action::MoveRelative(x, y) => Action::MoveRelative(*x, *y),
            Action::Focus => Action::Focus,
            Action::Raise => Action::Raise,
            Action::Lower => Action::Lower,
            Action::Execute(s) => Action::Execute(s.clone()),
            Action::ShowMenu(s) => Action::ShowMenu(s.clone()),
            Action::RootMenu => Action::RootMenu,
            Action::ClientMenu => Action::ClientMenu,
            Action::GoToDesktop(s) => Action::GoToDesktop(s.clone()),
            Action::SendToDesktop(s) => Action::SendToDesktop(s.clone()),
            Action::WorkspaceSwitch(n) => Action::WorkspaceSwitch(*n),
            Action::Exit => Action::Exit,
            Action::Reconfigure => Action::Reconfigure,
            Action::SessionLock => Action::SessionLock,
            Action::ToggleShowDesktop => Action::ToggleShowDesktop,
            Action::CycleWindows(s) => Action::CycleWindows(s.clone()),
            Action::None_ => Action::None_,
        }
    }
}

/// The usable area `u` of an output keeps the halves of a snapped view
/// within `i32` coordinates.
pub open spec fn snap_fits(u: Rect) -> bool {
    &&& fits_i32(u.x + u.width)
    &&& fits_i32(u.y + u.height)
    &&& fits_i32((u.x + u.width) - u.x)
    &&& fits_i32((u.y + u.height) - u.y)
    &&& fits_i32(u.x + (u.x + u.width))
}

/// What `execute` needs: a view moved by `MoveRelative` that stays within
/// `i32` coordinates, a view snapped on an output whose usable area allows
/// it, and, for a relative switch, at least one and at most `i32::MAX`
/// workspaces and a target index (the current one taken as an `i32`) that
/// fits in an `i32`.
pub open spec fn execute_allowed(action: Action, view: Option<WindowView>, ws: WorkspaceManager) -> bool {
    &&& match action {
        Action::MoveRelative(dx, dy) => match view {
            Some(v) => fits_i32(v.pending.x + dx) && fits_i32(v.pending.y + dy),
            None => true,
        },
        Action::SnapToEdge(_) => match view {
            Some(v) => match v.output {
                Some(o) => snap_fits(o.usable_area),
                None => true,
            },
            None => true,
        },
        Action::WorkspaceSwitch(d) => ws.workspaces.len() > 0 && ws.workspaces.len() <= i32::MAX
            && fits_i32((ws.current_idx as i32) + d),
        _ => true,
    }
}

/// The view after `action`: maximized or fullscreen toggled, snapped to an
/// edge of its output, or moved; the other actions leave it as it is.
pub open spec fn acted_view(action: Action, v: WindowView) -> WindowView {
    match action {
        Action::ToggleMaximize => WindowView { maximized: toggled_axis(v.maximized), ..v },
        Action::ToggleFullscreen => WindowView { fullscreen: !v.fullscreen, ..v },
        Action::SnapToEdge(edge) => match v.output {
            Some(o) => if v.fullscreen {
                v
            } else {
                WindowView { tiled: edge, pending: snapped_geometry(edge, o.usable_area), ..v }
            },
            None => v,
        },
        Action::MoveRelative(dx, dy) => WindowView {
            pending: Rect { x: (v.pending.x + dx) as i32, y: (v.pending.y + dy) as i32, ..v.pending },
            ..v
        },
        _ => v,
    }
}

/// Run `action` on the view `view` (where there is one), the focus and
/// the workspaces. `Focus` makes the view active, `GoToDesktop` and
/// `WorkspaceSwitch` change the current workspace, and the view actions
/// change the view as `acted_view` says. `Execute` returns its command
/// line for the caller to start; every other action returns `None`.
#[verifier::rlimit(40)]
#[verifier::spinoff_prover]
pub fn execute(
    action: &Action,
    view: Option<&mut WindowView>,
    focus: &mut FocusManager,
    workspace: &mut WorkspaceManager,
) -> (command: Option<String>)
    requires
        execute_allowed(
            *action,
            match view {
                Some(v) => Some(*v),
                None => None,
            },
            *old(workspace),
        ),
    ensures
        old(workspace).wf() ==> final(workspace).wf(),
        final(workspace).workspaces == old(workspace).workspaces,
        match view {
            Some(v) => *final(v) == acted_view(*action, *v),
            None => true,
        },
        match *action {
            Action::Execute(cmd) => command == Some(cmd),
            _ => command is None,
        },
        match (*action, view) {
            (Action::Focus, Some(v)) => {
                &&& final(focus).input_mode == old(focus).input_mode
                &&& keeps_focus(old(focus).active_view, v.id, true) ==> final(focus).active_view
                    == old(focus).active_view
                &&& !keeps_focus(old(focus).active_view, v.id, true) ==> final(focus).active_view
                    == Some(Arc::new(WindowView { impl_: None, ..*v }))
            },
            _ => *final(focus) == *old(focus),
        },
        match *action {
            Action::GoToDesktop(name) => match first_named(old(workspace).workspaces@, name@) {
                Some(i) => final(workspace).current_idx == i && final(workspace).last_idx
                    == old(workspace).current_idx,
                None => final(workspace).current_idx == old(workspace).current_idx
                    && final(workspace).last_idx == old(workspace).last_idx,
            },
            Action::WorkspaceSwitch(d) => final(workspace).current_idx == relative_index(
                (old(workspace).current_idx as i32) as int,
                d as int,
                old(workspace).workspaces.len() as int,
            ) && final(workspace).last_idx == old(workspace).current_idx,
            _ => final(workspace).current_idx == old(workspace).current_idx
                && final(workspace).last_idx == old(workspace).last_idx,
        },
{
    match action {
        Action::ToggleMaximize => {
            if let Some(v) = view {
                v.toggle_maximize();
            }
            None
        },
        Action::ToggleFullscreen => {
            if let Some(v) = view {
                v.toggle_fullscreen();
            }
            None
        },
        Action::SnapToEdge(edge) => {
            if let Some(v) = view {
                match &v.output {
                    Some(o) => {
                        let out = Arc::clone(o);
                        v.snap_to_edge(*edge, &out);
                    },
                    None => {},
                }
            }
            None
        },
        Action::MoveRelative(dx, dy) => {
            if let Some(v) = view {
                v.move_relative(*dx, *dy);
            }
            None
        },
        Action::Focus => {
            if let Some(v) = view {
                let shared = Arc::new(v.duplicate());
                focus.focus_view(&shared, true);
            }
            None
        },
        Action::Execute(cmd) => Some(cmd.clone()),
        Action::GoToDesktop(name) => {
            workspace.switch_to(name.as_str());
            None
        },
        Action::WorkspaceSwitch(delta) => {
            workspace.switch_relative(*delta);
            None
        },
        _ => None,
    }
}

} // verus!
