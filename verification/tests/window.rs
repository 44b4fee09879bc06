use labwc::geometry::Rect;
use labwc::types::{ViewAxis, ViewType};
use labwc::window::WindowView;

#[test]
fn test_view_new() {
    let v = WindowView::new(1, ViewType::XdgShell);
    assert_eq!(v.id, 1);
    assert!(!v.mapped);
    assert_eq!(v.maximized, ViewAxis::Unmaximized);
}

#[test]
fn test_view_move() {
    let mut v = WindowView::new(1, ViewType::XdgShell);
    v.pending = Rect::new(100, 100, 400, 300);
    v.move_to(200, 150);
    let p = v.pending;
    assert_eq!(p.x, 200);
    assert_eq!(p.y, 150);
}

#[test]
fn test_view_maximize() {
    let mut v = WindowView::new(1, ViewType::XdgShell);
    v.maximize(ViewAxis::Both);
    assert_eq!(v.maximized, ViewAxis::Both);
    v.maximize(ViewAxis::Unmaximized);
    assert_eq!(v.maximized, ViewAxis::Unmaximized);
}

#[test]
fn test_view_fullscreen() {
    let mut v = WindowView::new(1, ViewType::XdgShell);
    v.set_fullscreen(true);
    assert!(v.fullscreen);
    v.set_fullscreen(false);
    assert!(!v.fullscreen);
}

#[test]
fn test_view_is_floating() {
    let mut v = WindowView::new(1, ViewType::XdgShell);
    assert!(v.is_floating());
    v.maximize(ViewAxis::Both);
    assert!(!v.is_floating());
}

#[test]
fn toggle_maximize_twice_restores() {
    let mut v = WindowView::new(1, ViewType::XdgShell);
    v.toggle_maximize();
    assert_eq!(v.maximized, ViewAxis::Both);
    v.toggle_maximize();
    assert_eq!(v.maximized, ViewAxis::Unmaximized);
}

#[test]
fn move_relative_shifts_pending() {
    let mut v = WindowView::new(1, ViewType::XdgShell);
    v.pending = Rect::new(100, 100, 400, 300);
    v.move_relative(-50, 25);
    assert_eq!(v.pending, Rect::new(50, 125, 400, 300));
}
