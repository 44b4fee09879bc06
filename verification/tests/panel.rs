use labwc::panel::{Panel, PanelModule};
use labwc::theme::Theme;

#[test]
fn test_panel_new() {
    let panel = Panel::new(&Theme::default(), Vec::new());
    assert!(panel.modules.len() >= 6);
}

#[test]
fn test_toggle_visibility() {
    let mut panel = Panel::new(&Theme::default(), Vec::new());
    panel.toggle_visibility();
    assert!(!panel.state.visible);
}

#[test]
fn test_search_empty() {
    let mut panel = Panel::new(&Theme::default(), Vec::new());
    panel.search_apps("");
    // Searching with empty query clears search state
    for m in &panel.modules {
        if let PanelModule::Launcher(ref l) = m {
            assert!(!l.search_active);
            assert!(l.search_query.is_empty());
            assert!(l.search_results.is_empty());
        }
    }
}

#[test]
fn test_default() {
    let panel = Panel::default();
    assert!(panel.config.blur_enabled);
}

#[test]
fn toggle_visibility_twice_restores() {
    let mut panel = Panel::default();
    panel.toggle_visibility();
    panel.toggle_visibility();
    assert!(panel.state.visible);
}
