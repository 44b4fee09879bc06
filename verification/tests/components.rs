use labwc::output::Output;
use labwc::panel::{Panel, PanelModule};
use labwc::rendering::{RenderError, Renderer};
use labwc::theme::Theme;
use labwc::wayland::toplevel_tag::ToplevelTagState;
use labwc::xdg::entry::{user_locales, DesktopEntry};

#[test]
fn renderer_frame_cycle() {
    let outs = vec![Output::new("DP-1", 2560, 1440, 165), Output::new("HDMI-A-1", 1920, 1080, 60)];
    let mut r = Renderer::create(&outs).unwrap();
    assert_eq!(r.output_count(), 2);
    assert!(r.begin_frame(0).is_ok());
    assert!(r.end_frame(0).is_ok());
    assert!(r.present(0).is_ok());
    assert_eq!(r.timeline_point(), 1);
    assert!(matches!(r.begin_frame(5), Err(RenderError::NoOutput(5))));
    assert!(matches!(r.present(9), Err(RenderError::NoOutput(9))));
    assert_eq!(r.advance_frame(), 1);
    assert_eq!(r.frame_number(), 1);
    // A present on a missing output still takes a timeline point.
    assert_eq!(r.timeline_point(), 3);
    assert!(r.stats(1).is_some());
    assert!(r.stats(2).is_none());
    assert!(!r.needs_repaint(7));
}

#[test]
fn toplevel_tags_follow_the_last_tagging() {
    let mut t = ToplevelTagState::new();
    t.tag_toplevel(1, "editor");
    t.tag_toplevel(2, "browser");
    assert_eq!(t.find_by_tag("editor"), Some(1));
    assert_eq!(t.get_tag(2), Some("browser"));
    t.tag_toplevel(1, "notes");
    assert_eq!(t.find_by_tag("editor"), None);
    assert_eq!(t.find_by_tag("notes"), Some(1));
    t.tag_toplevel(3, "notes");
    assert_eq!(t.find_by_tag("notes"), Some(3));
    assert_eq!(t.get_tag(1), None);
    assert_eq!(t.get_tag(9), None);
}

fn app(name: &str, exec: &str, extra: &str) -> DesktopEntry {
    let content = format!("[Desktop Entry]\nType=Application\nName={name}\nExec={exec}\n{extra}");
    DesktopEntry::parse_str(&content, "/tmp/app.desktop", None, None).unwrap()
}

#[test]
fn panel_search_ignores_case() {
    let apps = vec![app("Firefox", "firefox %u", ""), app("Files", "nautilus", ""), app("Terminal", "foot", "")];
    let mut panel = Panel::new(&Theme::default(), apps);
    panel.search_apps("FI");
    match &panel.modules[0] {
        PanelModule::Launcher(l) => {
            assert!(l.search_active);
            assert_eq!(l.search_query, "FI");
            let names: Vec<&str> = l.search_results.iter().map(|e| e.name.as_str()).collect();
            assert_eq!(names, vec!["Firefox", "Files"]);
        }
        _ => panic!("first module is the launcher"),
    }
}

#[test]
fn panel_launch_app_builds_command() {
    let apps = vec![app("Firefox", "firefox %u", ""), app("Top", "top", "Terminal=true\n")];
    let panel = Panel::new(&Theme::default(), apps);
    assert_eq!(panel.launch_app("Firefox", None), Some("firefox".to_string()));
    assert_eq!(panel.launch_app("Top", Some("foot")), Some("foot -e top".to_string()));
    assert_eq!(panel.launch_app("Top", None), Some("x-terminal-emulator -e top".to_string()));
    assert_eq!(panel.launch_app("Missing", None), None);
}

#[test]
fn exec_field_codes_removed() {
    assert_eq!(DesktopEntry::substitute_fields("  app %U --flag %f  x "), "app --flag x");
    assert_eq!(DesktopEntry::substitute_fields("%%"), "%%");
    assert_eq!(DesktopEntry::substitute_fields("%%f"), "%");
}

#[test]
fn locales_from_lang() {
    assert_eq!(user_locales(Some("de_DE.UTF-8")), vec!["de_DE.UTF-8", "de_DE", "de", "C"]);
    assert_eq!(user_locales(Some("fr")), vec!["fr", "fr", "C"]);
    assert_eq!(user_locales(None), vec!["C"]);
}

#[test]
fn show_in_desktops() {
    let e = app("A", "a", "OnlyShowIn=GNOME;labwc-rs;\n");
    assert!(e.should_show_in("LABWC-RS"));
    assert!(!e.should_show_in("KDE"));
    let n = app("B", "b", "NotShowIn=labwc-rs;\n");
    assert!(!n.should_show_in("labwc-rs"));
    assert!(n.should_show_in("sway"));
}
