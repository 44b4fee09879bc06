use labwc::actions::{execute, Action};
use labwc::edge::Edge;
use labwc::focus::FocusManager;
use labwc::geometry::Rect;
use labwc::types::{ViewAxis, ViewType};
use labwc::window::WindowView;
use labwc::workspace::WorkspaceManager;

#[test]
fn test_action_default_none() {
    let a = Action::None_;
    assert!(matches!(a, Action::None_));
}

#[test]
fn test_action_execute() {
    let a = Action::Execute("true".into());
    assert!(matches!(a, Action::Execute(_)));
}

#[test]
fn test_action_clone() {
    let a = Action::Close;
    let b = a.clone();
    assert!(matches!(b, Action::Close));
}

#[test]
fn execute_toggles_maximize_and_fullscreen() {
    let mut v = WindowView::new(1, ViewType::XdgShell);
    let mut f = FocusManager::new();
    let mut w = WorkspaceManager::new();
    assert_eq!(execute(&Action::ToggleMaximize, Some(&mut v), &mut f, &mut w), None);
    assert_eq!(v.maximized, ViewAxis::Both);
    execute(&Action::ToggleMaximize, Some(&mut v), &mut f, &mut w);
    assert_eq!(v.maximized, ViewAxis::Unmaximized);
    execute(&Action::ToggleFullscreen, Some(&mut v), &mut f, &mut w);
    assert!(v.fullscreen);
}

#[test]
fn execute_moves_view_relative() {
    let mut v = WindowView::new(1, ViewType::XdgShell);
    v.pending = Rect { x: 10, y: 20, width: 300, height: 200 };
    let mut f = FocusManager::new();
    let mut w = WorkspaceManager::new();
    execute(&Action::MoveRelative(5, -7), Some(&mut v), &mut f, &mut w);
    assert_eq!(v.pending, Rect { x: 15, y: 13, width: 300, height: 200 });
}

#[test]
fn execute_returns_command_to_run() {
    let mut f = FocusManager::new();
    let mut w = WorkspaceManager::new();
    let r = execute(&Action::Execute("foot -e top".into()), None, &mut f, &mut w);
    assert_eq!(r, Some("foot -e top".to_string()));
}

#[test]
fn execute_switches_workspaces() {
    let mut f = FocusManager::new();
    let mut w = WorkspaceManager::new();
    execute(&Action::GoToDesktop("3".into()), None, &mut f, &mut w);
    assert_eq!(w.current().name, "3");
    execute(&Action::WorkspaceSwitch(2), None, &mut f, &mut w);
    assert_eq!(w.current().name, "1");
    execute(&Action::GoToDesktop("nowhere".into()), None, &mut f, &mut w);
    assert_eq!(w.current().name, "1");
}

#[test]
fn execute_focus_makes_view_active() {
    let mut v = WindowView::new(7, ViewType::XdgShell);
    let mut f = FocusManager::new();
    let mut w = WorkspaceManager::new();
    execute(&Action::Focus, Some(&mut v), &mut f, &mut w);
    assert_eq!(f.active_view.as_ref().map(|a| a.id), Some(7));
}

#[test]
fn execute_snap_without_output_leaves_view() {
    let mut v = WindowView::new(1, ViewType::XdgShell);
    v.pending = Rect { x: 1, y: 2, width: 3, height: 4 };
    let mut f = FocusManager::new();
    let mut w = WorkspaceManager::new();
    execute(&Action::SnapToEdge(Edge::left()), Some(&mut v), &mut f, &mut w);
    assert_eq!(v.pending, Rect { x: 1, y: 2, width: 3, height: 4 });
}
