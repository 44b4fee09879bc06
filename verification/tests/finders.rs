use labwc::actions::{execute, Action};
use labwc::config::RcXml;
use labwc::edge::Edge;
use labwc::focus::FocusManager;
use labwc::theme::Theme;
use labwc::util::{config_candidates, executable_candidates, first_existing};
use labwc::wayland::toplevel_tag::ToplevelTagState;
use labwc::workspace::WorkspaceManager;
use labwc::xdg::entry::DesktopEntry;
use labwc::xdg::{scan_applications, AppCandidate};
use labwc::xwayland::XWayland;

#[test]
fn two_edge_unions_are_corners() {
    assert!(Edge::top().union(Edge::left()).is_corner());
    assert!(Edge::top().union(Edge::right()).is_corner());
    assert!(Edge::bottom().union(Edge::left()).is_corner());
    assert!(Edge::bottom().union(Edge::right()).is_corner());
    assert!(Edge::top_left().is_corner());
    assert!(!Edge::top().is_corner());
    assert!(!Edge::none().is_corner());
    assert!(!Edge::top().union(Edge::bottom()).is_corner());
}

#[test]
fn retagging_moves_the_tag() {
    let mut t = ToplevelTagState::new();
    t.tag_toplevel(1, "a");
    t.tag_toplevel(2, "a");
    assert_eq!(t.get_tag(1), None);
    assert_eq!(t.get_tag(2), Some("a"));
    assert_eq!(t.find_by_tag("a"), Some(2));
    t.tag_toplevel(2, "b");
    assert_eq!(t.find_by_tag("a"), None);
    assert_eq!(t.find_by_tag("b"), Some(2));
}

fn entry(file: &str, body: &str, lang: Option<&str>) -> AppCandidate {
    let content = format!("[Desktop Entry]\nType=Application\n{body}");
    let path = format!("/usr/share/applications/{file}");
    AppCandidate { path: path.clone(), entry: DesktopEntry::parse_str(&content, &path, lang, None) }
}

#[test]
fn applications_sorted_by_locale_category_then_name() {
    let found = vec![
        entry("zed.desktop", "Name=Zed\nExec=zed\n", Some("de")),
        entry("alpha.desktop", "Name=alpha\nExec=alpha\n", Some("de")),
        entry("term.desktop", "Name=Term\nExec=term\nCategories=System;TerminalEmulator;\n", Some("de")),
        entry("web.desktop", "Name=Web\nName[de]=Netz\nExec=web\n", Some("de")),
        entry("alpha.desktop", "Name=Again\nExec=again\n", Some("de")),
        AppCandidate { path: "/usr/share/applications/readme.txt".into(), entry: None },
    ];
    let apps = scan_applications(found);
    let names: Vec<&str> = apps.iter().map(|e| e.name.as_str()).collect();
    assert_eq!(names, vec!["Web", "Term", "alpha", "Zed"]);
}

#[test]
fn go_to_desktop_on_no_workspaces_changes_nothing() {
    let mut f = FocusManager::new();
    let mut w = WorkspaceManager { workspaces: vec![], current_idx: 0, last_idx: 0 };
    assert_eq!(execute(&Action::GoToDesktop("2".into()), None, &mut f, &mut w), None);
    assert_eq!(execute(&Action::Close, None, &mut f, &mut w), None);
    assert_eq!(execute(&Action::Focus, None, &mut f, &mut w), None);
    assert!(w.workspaces.is_empty());
    assert_eq!(w.current_idx, 0);
    assert!(f.active_view.is_none());
}

#[test]
fn first_existing_picks_the_first_true() {
    assert_eq!(first_existing(&vec![false, true, true]), Some(1));
    assert_eq!(first_existing(&vec![true]), Some(0));
    assert_eq!(first_existing(&vec![false, false]), None);
    assert_eq!(first_existing(&vec![]), None);
}

#[test]
fn free_display_is_the_first_absent_socket() {
    assert_eq!(XWayland::pick_free_display(&vec![false, false, true, false]), 2);
    assert_eq!(XWayland::pick_free_display(&vec![false, true]), 1);
    assert_eq!(XWayland::pick_free_display(&vec![false; 64]), 0);
    assert_eq!(XWayland::socket_path(7), "/tmp/.X11-unix/X7");
    assert!(XWayland::find_free_display() < 64);
}

#[test]
fn candidate_lists_in_search_order() {
    assert_eq!(
        executable_candidates("foot", Some("/usr/local/bin:/usr/bin")),
        vec!["/usr/local/bin/foot".to_string(), "/usr/bin/foot".to_string()]
    );
    assert_eq!(
        DesktopEntry::try_exec_candidates("foo", Some("/a:/b")),
        vec!["/a/foo".to_string(), "/b/foo".to_string(), "foo".to_string()]
    );
    assert_eq!(
        config_candidates("labwc/rc.xml", Some("/home/u/.config"), Some("/etc/xdg")),
        vec!["/home/u/.config/labwc/rc.xml".to_string(), "/etc/xdg/labwc/rc.xml".to_string()]
    );
    assert_eq!(
        Theme::theme_path_candidates("Nord", "/home/u/.config"),
        vec![
            "/home/u/.config/labwc/themes/Nord/themerc".to_string(),
            "/usr/share/themes/Nord/openbox-3/themerc".to_string(),
            "/usr/share/labwc/themes/Nord/themerc".to_string()
        ]
    );
    let mut rc = RcXml::new();
    rc.config_file = Some("/x/rc.xml".into());
    rc.config_dir = Some("/y".into());
    assert_eq!(
        rc.config_path_candidates(Some("/h"), Some("/e")),
        vec![
            "/x/rc.xml".to_string(),
            "/y/rc.xml".to_string(),
            "/h/labwc/rc.xml".to_string(),
            "/e/labwc/rc.xml".to_string()
        ]
    );
}

#[test]
fn joining_follows_path_join() {
    assert_eq!(
        executable_candidates("foo", Some("/a/::/b")),
        vec!["/a/foo".to_string(), "foo".to_string(), "/b/foo".to_string()]
    );
    assert_eq!(
        config_candidates("/abs/rc.xml", Some("/h"), Some("/e")),
        vec!["/abs/rc.xml".to_string(), "/abs/rc.xml".to_string()]
    );
    for (base, rest) in [("/a", "b"), ("/a/", "b"), ("", "b"), ("/a", "/b"), ("/a", "")] {
        let want = std::path::Path::new(base).join(rest).to_string_lossy().into_owned();
        assert_eq!(executable_candidates(rest, Some(base))[0], want);
    }
}
