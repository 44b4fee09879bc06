use labwc::geometry::Rect;
use labwc::scene::{NodeIds, Scene, SceneNode, SceneNodeKind};
use labwc::types::{ViewAxis, ViewType};
use labwc::view_state::SizeHints;
use labwc::window::{ViewImpl, WindowView};
use labwc::workspace::{Workspace, WorkspaceManager};
use labwc::xdg::autostart::{is_desktop_file, AutostartCandidate, AutostartSource};
use labwc::xdg::AppCandidate;
use std::sync::{Arc, Mutex};

struct Recorder {
    calls: Arc<Mutex<Vec<String>>>,
}

impl ViewImpl for Recorder {
    fn configure(&self, view_id: u64, geometry: Rect) {
        self.calls.lock().unwrap().push(format!("configure {} {} {} {} {}", view_id, geometry.x, geometry.y, geometry.width, geometry.height));
    }
    fn close(&self, view_id: u64) {
        self.calls.lock().unwrap().push(format!("close {}", view_id));
    }
    fn set_activated(&self, view_id: u64, activated: bool) {
        self.calls.lock().unwrap().push(format!("activated {} {}", view_id, activated));
    }
    fn set_fullscreen(&self, view_id: u64, fullscreen: bool) {
        self.calls.lock().unwrap().push(format!("fullscreen {} {}", view_id, fullscreen));
    }
    fn maximize(&self, view_id: u64, maximized: ViewAxis) {
        self.calls.lock().unwrap().push(format!("maximize {} {:?}", view_id, maximized));
    }
    fn notify_tiled(&self, view_id: u64) {
        self.calls.lock().unwrap().push(format!("tiled {}", view_id));
    }
    fn get_size_hints(&self, _view_id: u64) -> SizeHints {
        SizeHints::default()
    }
}

#[test]
fn view_tells_its_shell_before_recording() {
    let calls = Arc::new(Mutex::new(Vec::new()));
    let mut v = WindowView::new(7, ViewType::XdgShell);
    v.impl_ = Some(Box::new(Recorder { calls: calls.clone() }));
    v.move_to(10, 20);
    v.toggle_maximize();
    v.toggle_fullscreen();
    v.move_relative(1, 1);
    assert_eq!(v.pending, Rect::new(11, 21, 0, 0));
    assert_eq!(v.maximized, ViewAxis::Both);
    assert!(v.fullscreen);
    let got = calls.lock().unwrap().clone();
    assert_eq!(
        got,
        vec![
            "configure 7 10 20 0 0".to_string(),
            "maximize 7 Both".to_string(),
            "fullscreen 7 true".to_string(),
            "configure 7 11 21 0 0".to_string(),
        ]
    );
}

#[test]
fn view_without_shell_just_records() {
    let mut v = WindowView::new(1, ViewType::XdgShell);
    assert!(v.impl_.is_none());
    v.move_resize(Rect::new(1, 2, 3, 4));
    assert_eq!(v.pending, Rect::new(1, 2, 3, 4));
}

#[test]
fn node_ids_from_a_source_increase() {
    let mut ids = NodeIds::new();
    let a = SceneNode::new_from(SceneNodeKind::Rect, &mut ids);
    let b = SceneNode::new_from(SceneNodeKind::Buffer, &mut ids);
    let c = SceneNode::new_from(SceneNodeKind::Rect, &mut ids);
    assert_eq!((a.id, b.id, c.id), (1, 2, 3));
    assert_eq!(ids.next, 4);
    assert!(a.enabled && a.visible && a.child_count() == 0);
    let s = Scene::new();
    assert_eq!(s.root.id, 1);
    assert_eq!(s.ids.next, 2);
}

#[test]
fn switch_relative_from_an_index_out_of_range() {
    let mut mgr = WorkspaceManager {
        workspaces: vec![Workspace::new("1"), Workspace::new("2"), Workspace::new("3"), Workspace::new("4")],
        current_idx: 7,
        last_idx: 9,
    };
    mgr.switch_relative(1);
    assert_eq!(mgr.current_idx, 0);
    assert_eq!(mgr.last_idx, 7);
    mgr.switch_relative(-6);
    assert_eq!(mgr.current_idx, 2);
}

#[test]
fn candidates_parse_desktop_files_only() {
    let text = "[Desktop Entry]\nType=Application\nName=Foot\nExec=foot\n";
    let c = AppCandidate::from_file("/usr/share/applications/foot.desktop", Some(text), None, None);
    assert_eq!(c.path, "/usr/share/applications/foot.desktop");
    assert_eq!(c.entry.as_ref().map(|e| e.name.as_str()), Some("Foot"));
    let c = AppCandidate::from_file("/usr/share/applications/notes.txt", Some(text), None, None);
    assert!(c.entry.is_none());
    let c = AppCandidate::from_file("/usr/share/applications/gone.desktop", None, None, None);
    assert!(c.entry.is_none());
    let a = AutostartCandidate::from_file(
        "/etc/xdg/autostart/foot.desktop",
        AutostartSource::SystemAutostart,
        Some(text),
        None,
        None,
    );
    assert_eq!(a.source, AutostartSource::SystemAutostart);
    assert_eq!(a.entry.as_ref().map(|e| e.exec_line.as_deref()), Some(Some("foot")));
    let a = AutostartCandidate::from_file(
        "/etc/xdg/autostart/hidden.desktop",
        AutostartSource::SystemEtc,
        Some("[Desktop Entry]\nType=Application\nName=H\nExec=h\nHidden=true\n"),
        None,
        None,
    );
    assert!(a.entry.is_none());
}

#[test]
fn desktop_extension_follows_path_extension() {
    for p in ["a.desktop", "/x/a.tar.desktop", "/x/.desktop", "/x/..desktop", "/x/a.desktop/", "desktop", "/x/a.", "", "/", "/x/a.desktop/.."] {
        let want = std::path::Path::new(p).extension().map(|e| e == "desktop").unwrap_or(false);
        assert_eq!(is_desktop_file(p), want, "{}", p);
    }
}
