//! GPU backend: backend selection, GPU capability decisions, session flags.
//!
//! On NVIDIA hardware explicit sync and modifiers depend on the
//! `nvidia_drm` modeset parameter; AMD and Intel support syncobj.
use vstd::prelude::*;
use std::sync::Arc;
use std::sync::atomic::{AtomicBool, Ordering};
use crate::error::CompositorError;
use crate::session::SessionType;

verus! {

/// The kind of backend the compositor drives.
#[derive(Debug, Clone, Copy, PartialEq, Eq, Structural)]
pub enum BackendType {
    Drm,
    Headless,
    X11,
    Wayland,
}

/// The GPU vendor.
#[derive(Debug, Clone, Copy, PartialEq, Eq, Structural)]
pub enum GpuVendor {
    Nvidia,
    Amd,
    Intel,
    Other,
}

/// What was probed of the primary GPU.
#[derive(Debug)]
pub struct GpuInfo {
    pub vendor: GpuVendor,
    pub device_path: String,
    pub render_node: String,
    pub supports_modifiers: bool,
    pub supports_explicit_sync: bool,
    pub supports_cursor_plane: bool,
    pub max_cursor_size: (u32, u32),
    pub drm_driver_name: String,
    pub gbm_device_fd: Option<i32>,
}

/// The backend state.
#[derive(Debug)]
pub struct Backend {
    pub backend_type: BackendType,
    pub primary_fd: Option<i32>,
    pub session_active: Arc<AtomicBool>,
    pub gpu: Option<GpuInfo>,
    pub ready: Arc<AtomicBool>,
    pub has_dumb_buffers: bool,
}

/// The vendor named by a PCI vendor id read from sysfs.
pub open spec fn vendor_of(vendor_id: Option<&str>) -> GpuVendor {
    match vendor_id {
        Some(v) => if v@ == "0x10de"@ {
            GpuVendor::Nvidia
        } else if v@ == "0x1002"@ {
            GpuVendor::Amd
        } else if v@ == "0x8086"@ {
            GpuVendor::Intel
        } else {
            GpuVendor::Other
        },
        None => GpuVendor::Other,
    }
}

/// The backend type chosen for a nested session.
pub open spec fn nested_backend(session: SessionType) -> BackendType {
    match session {
        SessionType::WaylandNested => BackendType::Wayland,
        SessionType::X11Nested => BackendType::X11,
        _ => BackendType::Headless,
    }
}

fn vendor_from_id(vendor_id: Option<&str>) -> (v: GpuVendor)
    ensures
        v == vendor_of(vendor_id),
{
    match vendor_id {
        Some(v) => if crate::text::str_eq(v, "0x10de") {
            GpuVendor::Nvidia
        } else if crate::text::str_eq(v, "0x1002") {
            GpuVendor::Amd
        } else if crate::text::str_eq(v, "0x8086") {
            GpuVendor::Intel
        } else {
            GpuVendor::Other
        },
        None => GpuVendor::Other,
    }
}

/// Whether the NVIDIA driver offers DRM synchronization objects: it does
/// where its `modeset` parameter exists. The answer depends on the
/// machine.
pub fn check_nvidia_drm_syncobj() -> bool {
    crate::probe::path_exists("/sys/module/nvidia_drm/parameters/modeset")
}

/// Whether the NVIDIA driver supports DRM format modifiers: it does where
/// its `modeset` parameter exists. The answer depends on the machine.
pub fn check_nvidia_modifiers() -> bool {
    crate::probe::path_exists("/sys/module/nvidia_drm/parameters/modeset")
}

/// Whether the device supports dumb buffers; every functional DRM device
/// is taken to.
fn check_dumb_buffers(_fd: i32) -> (b: bool)
    ensures
        b,
{
    true
}

impl GpuInfo {
    /// The vendor's display name.
    pub fn vendor_name(&self) -> (s: &str)
        ensures
            s@ == (match self.vendor {
                GpuVendor::Nvidia => "NVIDIA"@,
                GpuVendor::Amd => "AMD"@,
                GpuVendor::Intel => "Intel"@,
                GpuVendor::Other => "Unknown"@,
            }),
    {
        match self.vendor {
            GpuVendor::Nvidia => "NVIDIA",
            GpuVendor::Amd => "AMD",
            GpuVendor::Intel => "Intel",
            GpuVendor::Other => "Unknown",
        }
    }
}

impl Backend {
    /// The GPU capabilities that follow from what was probed: the PCI
    /// vendor id, whether the `nvidia_drm` modeset parameter exists, the
    /// device paths, and the driver name read from sysfs (`"unknown"` when
    /// it could not be read).
    pub fn probe_gpu(
        vendor_id: Option<&str>,
        nvidia_modeset: bool,
        dev_path: &str,
        render_path: &str,
        driver_name: Option<String>,
    ) -> (g: GpuInfo)
        ensures
            g.vendor == vendor_of(vendor_id),
            g.device_path@ == dev_path@,
            g.render_node@ == render_path@,
            g.supports_explicit_sync == (match vendor_of(vendor_id) {
                GpuVendor::Nvidia => nvidia_modeset,
                GpuVendor::Amd | GpuVendor::Intel => true,
                GpuVendor::Other => false,
            }),
            g.supports_modifiers == (vendor_of(vendor_id) != GpuVendor::Nvidia || nvidia_modeset),
            g.supports_cursor_plane,
            g.max_cursor_size == (if vendor_of(vendor_id) == GpuVendor::Nvidia {
                (256u32, 256u32)
            } else {
                (64u32, 64u32)
            }),
            g.drm_driver_name@ == (match driver_name {
                Some(n) => n@,
                None => "unknown"@,
            }),
            g.gbm_device_fd.is_none(),
    {
        let vendor = vendor_from_id(vendor_id);
        let supports_explicit_sync = match vendor {
            GpuVendor::Nvidia => nvidia_modeset,
            GpuVendor::Amd | GpuVendor::Intel => true,
            GpuVendor::Other => false,
        };
        let is_nvidia = match vendor {
            GpuVendor::Nvidia => true,
            _ => false,
        };
        GpuInfo {
            vendor,
            device_path: dev_path.to_owned(),
            render_node: render_path.to_owned(),
            supports_modifiers: !is_nvidia || nvidia_modeset,
            supports_explicit_sync,
            supports_cursor_plane: true,
            max_cursor_size: if is_nvidia { (256, 256) } else { (64, 64) },
            drm_driver_name: match driver_name {
                Some(n) => n,
                None => "unknown".to_owned(),
            },
            gbm_device_fd: None,
        }
    }

    /// Build the backend for a session: nested sessions use the parent's
    /// display server (or headless); otherwise the opened primary DRM device
    /// is used when there is one, and the headless backend when not.
    pub fn autocreate(session: SessionType, device: Option<(i32, GpuInfo)>) -> (r: Result<
        Backend,
        CompositorError,
    >)
        ensures
            r is Ok,
            r matches Ok(b) && {
                &&& crate::session::nested(session) ==> b.backend_type == nested_backend(session)
                    && b.primary_fd.is_none() && b.gpu.is_none() && !b.has_dumb_buffers
                &&& !crate::session::nested(session) ==> match device {
                    Some((fd, info)) => b.backend_type == BackendType::Drm && b.primary_fd == Some(
                        fd,
                    ) && b.gpu == Some(info) && b.has_dumb_buffers,
                    None => b.backend_type == BackendType::Headless && b.primary_fd.is_none()
                        && b.gpu.is_none() && !b.has_dumb_buffers,
                }
            },
    {
        let mut backend = Backend {
            backend_type: BackendType::Drm,
            primary_fd: None,
            session_active: Arc::new(AtomicBool::new(false)),
            gpu: None,
            ready: Arc::new(AtomicBool::new(false)),
            has_dumb_buffers: false,
        };
        if session.is_nested() {
            backend.backend_type = match session {
                SessionType::WaylandNested => BackendType::Wayland,
                SessionType::X11Nested => BackendType::X11,
                _ => BackendType::Headless,
            };
            return Ok(backend);
        }
        match device {
            Some((fd, info)) => {
                backend.primary_fd = Some(fd);
                backend.gpu = Some(info);
                backend.has_dumb_buffers = check_dumb_buffers(fd);
                backend.backend_type = BackendType::Drm;
            },
            None => {
                backend.backend_type = BackendType::Headless;
            },
        }
        Ok(backend)
    }

    /// Mark the GPU session active. The flag is shared with other threads,
    /// so nothing is stated of the value later reads return.
    pub fn activate_session(&self) {
        self.session_active.store(true, Ordering::SeqCst);
    }

    /// Mark the GPU session inactive (rendering is suspended).
    pub fn deactivate_session(&self) {
        self.session_active.store(false, Ordering::SeqCst);
    }

    /// Mark the backend ready.
    pub fn mark_ready(&self) {
        self.ready.store(true, Ordering::SeqCst);
    }

    /// Read the shared ready flag.
    pub fn is_ready(&self) -> bool {
        self.ready.load(Ordering::Acquire)
    }

    /// Whether the primary GPU is an NVIDIA GPU.
    pub fn is_nvidia(&self) -> (b: bool)
        ensures
            b == (match self.gpu {
                Some(g) => g.vendor == GpuVendor::Nvidia,
                None => false,
            }),
    {
        match &self.gpu {
            Some(g) => match g.vendor {
                GpuVendor::Nvidia => true,
                _ => false,
            },
            None => false,
        }
    }

    /// Stop the backend: the session is deactivated, the backend is no
    /// longer ready, and the DRM device is released. The descriptor of the
    /// device, where one was open, is returned for the caller to close.
    pub fn shutdown(&mut self) -> (fd: Option<i32>)
        ensures
            fd == old(self).primary_fd,
            final(self).primary_fd is None,
            final(self).backend_type == old(self).backend_type,
            final(self).gpu == old(self).gpu,
            final(self).has_dumb_buffers == old(self).has_dumb_buffers,
    {
        self.deactivate_session();
        let fd = self.primary_fd.take();
        self.ready.store(false, Ordering::SeqCst);
        fd
    }

    /// Start the backend: activate the session and mark it ready.
    pub fn start(&mut self) -> (r: Result<(), CompositorError>)
        ensures
            r is Ok,
            final(self).backend_type == old(self).backend_type,
            final(self).primary_fd == old(self).primary_fd,
            final(self).gpu == old(self).gpu,
            final(self).has_dumb_buffers == old(self).has_dumb_buffers,
    {
        self.activate_session();
        self.mark_ready();
        Ok(())
    }
}

} // verus!
