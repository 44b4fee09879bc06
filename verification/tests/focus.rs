use labwc::focus::FocusManager;
use labwc::types::{InputMode, ViewLayer, ViewType};
use labwc::window::WindowView;
use std::sync::Arc;

#[test]
fn test_focus_manager_new() {
    let mgr = FocusManager::new();
    assert!(mgr.active_view.is_none());
    assert_eq!(mgr.input_mode, InputMode::Passthrough);
}

#[test]
fn test_clear_focus() {
    let mut mgr = FocusManager::new();
    mgr.clear_focus();
    assert!(mgr.active_view.is_none());
}

fn mapped(id: u64, layer: ViewLayer) -> Arc<WindowView> {
    let mut v = WindowView::new(id, ViewType::XdgShell);
    v.mapped = true;
    v.layer = layer;
    Arc::new(v)
}

#[test]
fn focus_topmost_skips_unmapped_and_bottom_views() {
    let mut mgr = FocusManager::new();
    let views = vec![
        mapped(1, ViewLayer::Normal),
        mapped(2, ViewLayer::Normal),
        mapped(3, ViewLayer::AlwaysOnBottom),
        Arc::new(WindowView::new(4, ViewType::XdgShell)),
    ];
    mgr.focus_topmost(&views);
    assert_eq!(mgr.active_view.as_ref().map(|v| v.id), Some(2));
}

#[test]
fn focus_topmost_without_candidates_clears() {
    let mut mgr = FocusManager::new();
    mgr.focus_view(&mapped(9, ViewLayer::Normal), false);
    let views = vec![Arc::new(WindowView::new(4, ViewType::XdgShell))];
    mgr.focus_topmost(&views);
    assert!(mgr.active_view.is_none());
}

#[test]
fn focus_view_raise_on_active_keeps_it() {
    let mut mgr = FocusManager::new();
    let a = mapped(5, ViewLayer::Normal);
    mgr.focus_view(&a, false);
    let again = mapped(5, ViewLayer::AlwaysOnTop);
    mgr.focus_view(&again, true);
    assert_eq!(mgr.active_view.as_ref().unwrap().layer, ViewLayer::Normal);
    mgr.focus_view(&again, false);
    assert_eq!(mgr.active_view.as_ref().unwrap().layer, ViewLayer::AlwaysOnTop);
}
