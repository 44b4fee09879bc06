use labwc::xdg::autostart::{AutostartEntry, AutostartManager, AutostartSource};
use labwc::xdg::entry::{DesktopEntry, EntryType};

#[test]
fn test_manager_new() {
    let mgr = AutostartManager::new();
    assert_eq!(mgr.entries.len(), 0);
    assert_eq!(mgr.desktop_name, "labwc-rs");
}

#[test]
fn test_toggle() {
    let mut mgr = AutostartManager::new();
    mgr.entries.push(AutostartEntry {
        entry: DesktopEntry::parse_str(
            "[Desktop Entry]\nType=Application\nName=Test\nExec=test\n",
            "/tmp/test.desktop",
            None,
            None,
        )
        .unwrap(),
        source: AutostartSource::UserAutostart,
        enabled: true,
        pid: None,
    });
    assert!(mgr.toggle("Test"));
    assert!(!mgr.entries[0].enabled);
    assert!(mgr.toggle("Test"));
    assert!(mgr.entries[0].enabled);
}

#[test]
fn test_source_priority() {
    assert!(AutostartSource::UserConfig.priority() < AutostartSource::SystemAutostart.priority());
}

#[test]
fn test_parse_basic() {
    let content = "[Desktop Entry]\nType=Application\nName=Test App\nExec=test-app\n";
    let entry = DesktopEntry::parse_str(content, "/tmp/test.desktop", None, None).unwrap();
    assert_eq!(entry.name, "Test App");
    assert_eq!(entry.entry_type, EntryType::Application);
}

#[test]
fn test_parse_categories() {
    let content = "[Desktop Entry]\nType=Application\nName=Terminal\nExec=alacritty\nCategories=System;TerminalEmulator;\n";
    let entry = DesktopEntry::parse_str(content, "/tmp/term.desktop", None, None).unwrap();
    assert_eq!(entry.categories.len(), 2);
    assert!(entry.categories.contains(&"TerminalEmulator".to_string()));
}

#[test]
fn test_try_exec_fail() {
    let content = "[Desktop Entry]\nType=Application\nName=Missing\nExec=nothing\nTryExec=/nonexistent/binary\n";
    assert!(DesktopEntry::parse_str(content, "/tmp/try.desktop", None, None).is_none());
}

#[test]
fn test_hidden() {
    let content = "[Desktop Entry]\nType=Application\nName=Hidden\nExec=true\nHidden=true\n";
    assert!(DesktopEntry::parse_str(content, "/tmp/hidden.desktop", None, None).is_none());
}

#[test]
fn test_only_show_in() {
    let content =
        "[Desktop Entry]\nType=Application\nName=GnomeApp\nExec=true\nOnlyShowIn=GNOME;\n";
    let entry = DesktopEntry::parse_str(content, "/tmp/gnome.desktop", None, None).unwrap();
    assert!(!entry.should_show_in("labwc"));
    assert!(entry.should_show_in("GNOME"));
}

#[test]
fn test_substitute_fields() {
    assert_eq!(DesktopEntry::substitute_fields("app %f"), "app");
    assert_eq!(
        DesktopEntry::substitute_fields("app %F --option"),
        "app --option"
    );
    assert_eq!(DesktopEntry::substitute_fields("app %u file"), "app file");
}

#[test]
fn test_terminal() {
    let content = "[Desktop Entry]\nType=Application\nName=Top\nExec=htop\nTerminal=true\n";
    let entry = DesktopEntry::parse_str(content, "/tmp/top.desktop", None, None).unwrap();
    assert!(entry.terminal);
}
