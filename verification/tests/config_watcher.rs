use labwc::config_watcher::{ConfigChangeEvent, ConfigChangeKind, WatchedFile};

#[test]
fn test_watched_file_names() {
    assert_eq!(WatchedFile::RcXml.name(), "rc.xml");
    assert_eq!(WatchedFile::MenuXml.name(), "menu.xml");
    assert_eq!(WatchedFile::ThemeRc.name(), "themerc");
}

#[test]
fn test_config_change_event() {
    let ev = ConfigChangeEvent {
        file: WatchedFile::RcXml,
        path: String::from("/tmp/rc.xml"),
        kind: ConfigChangeKind::Modified,
        timestamp: std::time::Instant::now(),
    };
    assert_eq!(ev.file, WatchedFile::RcXml);
}

use labwc::config_watcher::ConfigWatcher;

#[test]
fn test_watcher_new() {
    let w = ConfigWatcher::new();
    assert!(!w.running);
}

#[test]
fn test_register_path() {
    let mut w = ConfigWatcher::new();
    w.register_path("/tmp/test.xml", WatchedFile::RcXml);
    assert_eq!(w.watched_paths.len(), 1);
}

#[test]
fn start_and_stop_watching() {
    let mut w = ConfigWatcher::new();
    assert!(w.start_watching().is_none());
    assert!(!w.running);
    w.register_path("/tmp/a.xml", WatchedFile::MenuXml);
    assert_eq!(w.start_watching(), Some(vec!["/tmp/a.xml".to_string()]));
    assert!(w.running);
    w.stop();
    assert!(!w.running);
    assert_eq!(w.watched_paths, vec!["/tmp/a.xml".to_string()]);
}

#[test]
fn watch_all_configs_skips_missing_directories() {
    let mut w = ConfigWatcher::new();
    assert!(w.watch_all_configs(Some("/nonexistent-config-home")).is_none());
    assert!(w.watched_paths.is_empty());
    assert!(!w.running);
}
