use labwc::backend::{Backend, BackendType, GpuInfo, GpuVendor};
use labwc::session::SessionType;
use std::sync::atomic::AtomicBool;
use std::sync::Arc;

#[test]
fn test_gpu_vendor_enum() {
    assert_eq!(GpuVendor::Nvidia as u32, GpuVendor::Nvidia as u32);
    assert_ne!(GpuVendor::Amd, GpuVendor::Intel);
}

#[test]
fn test_backend_creation_headless() {
    let b = Backend {
        backend_type: BackendType::Headless,
        primary_fd: None,
        session_active: Arc::new(AtomicBool::new(false)),
        gpu: None,
        ready: Arc::new(AtomicBool::new(false)),
        has_dumb_buffers: false,
    };
    assert!(!b.is_nvidia());
}

#[test]
fn test_gpu_info_vendor_name() {
    let info = GpuInfo {
        vendor: GpuVendor::Nvidia,
        device_path: "/dev/dri/card0".into(),
        render_node: "/dev/dri/renderD128".into(),
        supports_modifiers: false,
        supports_explicit_sync: true,
        supports_cursor_plane: true,
        max_cursor_size: (256, 256),
        drm_driver_name: "nvidia-drm".into(),
        gbm_device_fd: None,
    };
    assert_eq!(info.vendor_name(), "NVIDIA");
}

#[test]
fn test_session_type_is_nested() {
    assert!(SessionType::WaylandNested.is_nested());
    assert!(SessionType::X11Nested.is_nested());
    assert!(!SessionType::Tty.is_nested());
    assert!(!SessionType::DisplayManager.is_nested());
    assert!(!SessionType::Unknown.is_nested());
}

#[test]
fn test_session_type_description() {
    assert!(SessionType::WaylandNested.description().contains("Wayland"));
    assert!(SessionType::X11Nested.description().contains("X11"));
    assert!(SessionType::Tty.description().contains("VT"));
    assert!(SessionType::DisplayManager
        .description()
        .contains("display manager"));
}

#[test]
fn test_session_lifecycle() {
    let b = Backend {
        backend_type: BackendType::Drm,
        primary_fd: None,
        session_active: Arc::new(AtomicBool::new(false)),
        gpu: None,
        ready: Arc::new(AtomicBool::new(false)),
        has_dumb_buffers: false,
    };
    assert!(!b.session_active.load(std::sync::atomic::Ordering::Acquire));
    b.activate_session();
    assert!(b.session_active.load(std::sync::atomic::Ordering::Acquire));
    b.deactivate_session();
    assert!(!b.session_active.load(std::sync::atomic::Ordering::Acquire));
}

#[test]
fn shutdown_releases_device() {
    let mut b = Backend {
        backend_type: BackendType::Drm,
        primary_fd: Some(7),
        session_active: Arc::new(AtomicBool::new(true)),
        gpu: None,
        ready: Arc::new(AtomicBool::new(true)),
        has_dumb_buffers: true,
    };
    assert_eq!(b.shutdown(), Some(7));
    assert_eq!(b.primary_fd, None);
    assert!(!b.is_ready());
    assert_eq!(b.shutdown(), None);
}
