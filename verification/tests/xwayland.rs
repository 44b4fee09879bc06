use labwc::xwayland::XWayland;

#[test]
fn test_xwayland_disabled() {
    let mut x = XWayland::new(false);
    assert!(!x.enabled);
    assert!(x.init().is_ok());
    assert!(!x.ready);
}

#[test]
fn test_xwayland_enabled() {
    let x = XWayland::new(true);
    assert!(x.enabled);
}

#[test]
fn test_find_free_display() {
    let d = XWayland::find_free_display();
    assert!(d < 64);
}

#[test]
fn test_xwayland_default() {
    let x = XWayland::default();
    assert!(x.enabled);
}
