use labwc::edge::Edge;
use labwc::geometry::Rect;
use labwc::shell::{close, configure, maximize, set_fullscreen};
use labwc::types::{ViewAxis, ViewType};
use labwc::window::WindowView;

#[test]
fn test_close() {
    let mut v = WindowView::new(1, ViewType::XdgShell);
    v.mapped = true;
    close(&mut v);
    assert!(!v.mapped);
}

#[test]
fn test_fullscreen() {
    let mut v = WindowView::new(1, ViewType::XdgShell);
    v.maximized = ViewAxis::Both;
    set_fullscreen(&mut v, true);
    assert!(v.fullscreen);
    assert_eq!(v.maximized, ViewAxis::Unmaximized);
}

#[test]
fn test_maximize() {
    let mut v = WindowView::new(1, ViewType::XdgShell);
    v.tiled = Edge::left();
    maximize(&mut v, ViewAxis::Both);
    assert_eq!(v.maximized, ViewAxis::Both);
    assert_eq!(v.tiled, Edge::none());
}

#[test]
fn test_configure() {
    let mut v = WindowView::new(1, ViewType::XdgShell);
    configure(&mut v, Rect::new(10, 20, 200, 300));
    assert_eq!(v.pending.x, 10);
    assert_eq!(v.current.x, 10);
}

#[test]
fn unmaximize_keeps_tiling() {
    let mut v = WindowView::new(1, ViewType::XdgShell);
    v.tiled = Edge::left();
    maximize(&mut v, ViewAxis::Unmaximized);
    assert_eq!(v.tiled, Edge::left());
}
