use labwc::config_watcher::{config_watch_targets, WatchedFile};
use labwc::edge::Edge;
use labwc::geometry::{Border, Rect};
use labwc::ipc::{respond, IpcCommand, IpcResponse, IpcServer};
use labwc::output::modes::{is_connector_name, parse_modes};
use labwc::session::{tty_is_real, SessionType};
use labwc::theme::Theme;
use labwc::types::ResizeEdge;
use labwc::util::{command_words, find_executable, resolve_config_path, xstrdup_replace};
use labwc::view_state::SizeHints;
use labwc::workspace::WorkspaceManager;
use labwc::xdg::autostart::{
    autostart_dirs, is_desktop_file, AutostartCandidate, AutostartManager, AutostartSource,
};
use labwc::xdg::entry::DesktopEntry;

#[test]
fn rect_intersection_commutes() {
    let a = Rect::new(0, 0, 100, 50);
    let b = Rect::new(40, 20, 100, 100);
    assert_eq!(a.intersection(&b), b.intersection(&a));
    assert_eq!(a.intersection(&b), Rect::new(40, 20, 60, 30));
    assert!(a.intersects(&b));
}

#[test]
fn rect_disjoint_intersection_is_empty() {
    let a = Rect::new(0, 0, 10, 10);
    let b = Rect::new(20, 20, 5, 5);
    assert!(!a.intersects(&b));
    assert!(a.intersection(&b).is_empty());
}

#[test]
fn rect_union_contains_both() {
    let a = Rect::new(0, 0, 10, 10);
    let b = Rect::new(20, 5, 5, 30);
    let u = a.union(&b);
    assert_eq!(u, Rect::new(0, 0, 25, 35));
    assert!(u.contains(&a) && u.contains(&b));
}

#[test]
fn border_outset_undoes_inset() {
    let b = Border { left: 1, right: 2, top: 27, bottom: 3 };
    let r = Rect::new(10, 10, 300, 200);
    let inner = b.inset_rect(&r);
    assert_eq!(inner, Rect::new(11, 37, 297, 170));
    assert_eq!(b.outset_rect(&inner), r);
}

#[test]
fn edge_invert_twice_is_identity() {
    for e in [Edge::top(), Edge::bottom(), Edge::left(), Edge::right(), Edge::none(), Edge::center()] {
        assert_eq!(e.invert().invert(), e);
    }
    assert_eq!(Edge::top().invert(), Edge::bottom());
    assert_eq!(Edge::top_left().invert(), Edge::bottom_right());
    assert_eq!(Edge::top_right().invert().invert(), Edge::top_right());
}

#[test]
fn edge_parse_ignores_case() {
    assert_eq!(Edge::parse("TopLeft"), Edge::top_left());
    assert_eq!(Edge::parse("BOTTOM_RIGHT"), Edge::bottom_right());
    assert_eq!(Edge::parse("sideways"), Edge::none());
}

#[test]
fn resize_edge_round_trip() {
    for v in [1u32, 2, 4, 5, 6, 8, 9, 10] {
        assert_eq!(ResizeEdge::from_wlr(v).to_wlr(), v);
    }
    assert_eq!(ResizeEdge::from_wlr(3), ResizeEdge::NoEdge);
}

#[test]
fn snap_on_grid_is_identity() {
    let h = SizeHints {
        min_width: 0,
        min_height: 0,
        base_width: 10,
        base_height: 4,
        width_inc: 8,
        height_inc: 16,
        max_width: 0,
        max_height: 0,
    };
    assert_eq!(h.snap_to_increments(10 + 8 * 5, 4 + 16 * 3), (50, 52));
    assert_eq!(h.snap_to_increments(57, 60), (58, 68));
    assert_eq!(h.snap_to_increments(53, 59), (50, 52));
    assert_eq!(h.effective_min_size(), (100, 60));
}

#[test]
fn workspace_switch_relative_undone() {
    let mut mgr = WorkspaceManager::new();
    mgr.switch_relative(3);
    assert_eq!(mgr.current().name, "4");
    mgr.switch_relative(-3);
    assert_eq!(mgr.current().name, "1");
    mgr.switch_relative(-1);
    assert_eq!(mgr.current().name, "4");
    mgr.switch_relative(4);
    assert_eq!(mgr.current().name, "4");
}

#[test]
fn session_from_environment_priorities() {
    assert_eq!(
        SessionType::from_environment(Some("wayland-0"), Some(":0"), None, true, true),
        SessionType::WaylandNested
    );
    assert_eq!(
        SessionType::from_environment(Some(""), Some(":0"), None, false, false),
        SessionType::X11Nested
    );
    assert_eq!(
        SessionType::from_environment(None, None, Some("wayland"), false, false),
        SessionType::DisplayManager
    );
    assert_eq!(
        SessionType::from_environment(None, None, Some("other"), false, true),
        SessionType::Tty
    );
    assert_eq!(
        SessionType::from_environment(None, None, None, false, false),
        SessionType::Unknown
    );
}

#[test]
fn tty_detection_cases() {
    assert!(!tty_is_real(false, Some("tty1"), Some("tty1"), true));
    assert!(tty_is_real(true, Some(" tty2\n"), None, false));
    assert!(!tty_is_real(true, None, Some("pts/3"), true));
    assert!(tty_is_real(true, None, Some("tty3"), false));
    assert!(tty_is_real(true, None, None, true));
    assert!(!tty_is_real(true, Some(""), None, false));
}

#[test]
fn ipc_answers() {
    assert!(matches!(respond(Ok(IpcCommand::Ping)), IpcResponse::Success));
    match respond(Ok(IpcCommand::GetWorkspaces)) {
        IpcResponse::Workspaces(v) => assert_eq!(v, vec!["1", "2", "3", "4"]),
        _ => panic!("wrong answer"),
    }
    match respond(Ok(IpcCommand::Quit)) {
        IpcResponse::Error(m) => assert_eq!(m, "Quit requires authentication via LABWC_PID check"),
        _ => panic!("wrong answer"),
    }
    match respond(Err("bad json".to_string())) {
        IpcResponse::Error(m) => assert_eq!(m, "invalid command: bad json"),
        _ => panic!("wrong answer"),
    }
    match respond(Ok(IpcCommand::GetWindows)) {
        IpcResponse::Windows(v) => assert!(v.is_empty()),
        _ => panic!("wrong answer"),
    }
}

#[test]
fn ipc_server_socket_path() {
    let s = IpcServer::new("/run/user/1000");
    assert_eq!(s.socket_path(), "/run/user/1000/labwc-rs-ipc.sock");
    assert!(!s.is_running());
    s.set_running(true);
    assert!(s.is_running());
}

#[test]
fn config_watch_targets_paths() {
    let t = config_watch_targets(Some("/home/u/.config"));
    assert_eq!(t.len(), 4);
    assert_eq!(t[0], ("/home/u/.config/labwc/rc.xml".to_string(), WatchedFile::RcXml));
    assert_eq!(t[3].1, WatchedFile::Autostart);
    let d = config_watch_targets(None);
    assert_eq!(d[1].0, "/etc/xdg/labwc/menu.xml");
}

#[test]
fn command_words_split_on_white_space() {
    assert_eq!(command_words("  foot  -e\ttop "), vec!["foot", "-e", "top"]);
    assert!(command_words("   ").is_empty());
}

#[test]
fn find_executable_searches_path() {
    assert_eq!(find_executable("sh", Some("/nonexistent-dir:/bin")), Some("/bin/sh".to_string()));
    assert_eq!(find_executable("sh", None), None);
    assert_eq!(find_executable("no-such-program-here", Some("/bin:/usr/bin")), None);
}

#[test]
fn resolve_config_path_order() {
    assert_eq!(resolve_config_path("tmp", Some("/"), None), Some("/tmp".to_string()));
    assert_eq!(resolve_config_path("tmp", Some("/nonexistent"), Some("/nope:/")), Some("/tmp".to_string()));
    assert_eq!(resolve_config_path("no-such-file", Some("/nonexistent"), None), None);
}

#[test]
fn xstrdup_replace_copies() {
    let mut s = String::from("old");
    xstrdup_replace(&mut s, "new");
    assert_eq!(s, "new");
}

#[test]
fn theme_path_needs_config_home() {
    assert_eq!(Theme::find_theme_path("Nightmare", None), None);
    assert_eq!(Theme::find_theme_path("no-such-theme", Some("/nonexistent")), None);
}

#[test]
fn connector_names() {
    assert!(is_connector_name("card0-HDMI-A-1"));
    assert!(!is_connector_name("card0"));
    assert!(!is_connector_name("renderD128-x"));
}

#[test]
fn modes_file_parsing() {
    let m = parse_modes("1920x1080\n1280x720\nbogus\n\n");
    assert_eq!(m.len(), 12);
    assert_eq!((m[0].width, m[0].height, m[0].refresh_hz), (1280, 720, 60));
    assert!(!m[0].is_preferred);
    assert_eq!((m[6].width, m[6].height, m[6].refresh_hz), (1920, 1080, 60));
    assert!(m[6].is_preferred);
    let uhd = parse_modes("3840x2160");
    let rates: Vec<u32> = uhd.iter().map(|m| m.refresh_hz).collect();
    assert_eq!(rates, vec![30, 60, 120, 144]);
    let none = parse_modes("");
    assert_eq!(none.len(), 1);
    assert_eq!((none[0].width, none[0].height, none[0].refresh_hz), (1920, 1080, 60));
}

#[test]
fn desktop_file_extension() {
    assert!(is_desktop_file("/etc/xdg/autostart/foo.desktop"));
    assert!(!is_desktop_file("/etc/xdg/autostart/foo.txt"));
    assert!(!is_desktop_file("/etc/xdg/autostart/desktop"));
}

#[test]
fn autostart_dirs_in_priority_order() {
    let d = autostart_dirs(Some("/home/u/.config"), Some("/etc/xdg:/opt/xdg"));
    let paths: Vec<&str> = d.iter().map(|(p, _)| p.as_str()).collect();
    assert_eq!(
        paths,
        vec![
            "/home/u/.config/labwc/autostart",
            "/home/u/.config/autostart",
            "/etc/xdg/autostart",
            "/opt/xdg/autostart",
            "/etc/xdg/autostart"
        ]
    );
    assert_eq!(d[0].1, AutostartSource::UserConfig);
    assert_eq!(d[3].1, AutostartSource::SystemAutostart);
    assert_eq!(d[4].1, AutostartSource::SystemEtc);
}

fn entry(name: &str, path: &str) -> Option<DesktopEntry> {
    let content = format!("[Desktop Entry]\nType=Application\nName={name}\nExec={name}\n");
    DesktopEntry::parse_str(&content, path, None, None)
}

#[test]
fn autostart_scan_keeps_first_by_file_name_and_sorts() {
    let mut mgr = AutostartManager::new();
    let found = vec![
        AutostartCandidate {
            path: "/etc/xdg/autostart/b.desktop".into(),
            source: AutostartSource::SystemAutostart,
            entry: entry("Beta", "/etc/xdg/autostart/b.desktop"),
        },
        AutostartCandidate {
            path: "/home/u/.config/autostart/a.desktop".into(),
            source: AutostartSource::UserAutostart,
            entry: entry("Alpha", "/home/u/.config/autostart/a.desktop"),
        },
        AutostartCandidate {
            path: "/etc/xdg/autostart/a.desktop".into(),
            source: AutostartSource::SystemAutostart,
            entry: entry("Alpha2", "/etc/xdg/autostart/a.desktop"),
        },
    ];
    mgr.scan(found);
    let names: Vec<&str> = mgr.entries.iter().map(|e| e.entry.name.as_str()).collect();
    assert_eq!(names, vec!["Alpha", "Beta"]);
    assert_eq!(mgr.enabled_count(), 2);
    assert!(mgr.toggle("Beta"));
    assert!(mgr.toggle("Beta"));
    assert_eq!(mgr.enabled_count(), 2);
    let targets = mgr.launch_targets();
    assert_eq!(targets, vec![(0, "Alpha".to_string()), (1, "Beta".to_string())]);
    mgr.record_launch(1, 4242);
    assert_eq!(mgr.entries[1].pid, Some(4242));
    assert_eq!(mgr.launched, vec![4242]);
}

#[test]
fn test_server_new_and_stop() {
    let server = IpcServer::new("/tmp");
    server.stop();
    assert!(!server.is_running());
}
