use labwc::config::{ParseState, RcXml, XmlEvent};
use labwc::decorations::Ssd;
use labwc::types::ViewType;
use labwc::window::WindowView;

#[test]
fn rc_xml_defaults() {
    let rc = RcXml::new();
    assert_eq!(rc.theme_name, "default");
    assert_eq!(rc.gap, 0);
    assert_eq!(rc.repeat_rate, 25);
    assert_eq!(rc.repeat_delay, 600);
    assert_eq!(rc.magnifier_scale_percent, 200);
    assert!(rc.keybinds.is_empty());
}

#[test]
fn parse_xml_reads_gap_and_keybinds() {
    let mut rc = RcXml::new();
    rc.parse_xml(
        "<?xml version=\"1.0\"?>\n<labwc_config>\n  <core>\n    <gap value=\"10\"/>\n  </core>\n  <keyboard>\n    <keybind key=\"W-Return\"/>\n    <keybind key=\"\"/>\n    <keybind key=\"A-Tab\"/>\n  </keyboard>\n</labwc_config>\n",
    );
    assert_eq!(rc.gap, 10);
    let keys: Vec<&str> = rc.keybinds.iter().map(|k| k.key.as_str()).collect();
    assert_eq!(keys, vec!["W-Return", "A-Tab"]);
    assert!(rc.keybinds.iter().all(|k| k.modifiers.is_empty() && k.actions.is_empty()));
}

#[test]
fn parse_xml_ignores_gap_outside_core() {
    let mut rc = RcXml::new();
    rc.parse_xml("<labwc_config><gap value=\"7\"/><core><gap value=\"x\"/></core></labwc_config>");
    assert_eq!(rc.gap, 0);
}

#[test]
fn parse_xml_negative_gap() {
    let mut rc = RcXml::new();
    rc.parse_xml("<core><gap value=\"-3\"/></core>");
    assert_eq!(rc.gap, -3);
}

#[test]
fn parse_xml_of_empty_document_keeps_defaults() {
    let mut rc = RcXml::new();
    rc.parse_xml("");
    assert_eq!(rc.gap, 0);
    assert!(rc.keybinds.is_empty());
}

#[test]
fn apply_event_transitions() {
    let mut rc = RcXml::new();
    let s = rc.apply_event(ParseState::Top, &XmlEvent::Start("core".into()));
    assert_eq!(s, ParseState::Core);
    let s = rc.apply_event(
        s,
        &XmlEvent::Empty("gap".into(), vec![Some(("value".into(), "4".into())), None, Some(("value".into(), "bad".into()))]),
    );
    assert_eq!(rc.gap, 4);
    let s = rc.apply_event(s, &XmlEvent::End("core".into()));
    assert_eq!(s, ParseState::Top);
    let s = rc.apply_event(s, &XmlEvent::Start("keyboard".into()));
    assert_eq!(s, ParseState::Keyboard);
    let s = rc.apply_event(
        s,
        &XmlEvent::Empty("keybind".into(), vec![Some(("key".into(), "a".into())), Some(("key".into(), "W-b".into())), None]),
    );
    assert_eq!(rc.keybinds.len(), 1);
    assert_eq!(rc.keybinds[0].key, "W-b");
    let s = rc.apply_event(s, &XmlEvent::Eof);
    assert_eq!(s, ParseState::Top);
    let s = rc.apply_event(s, &XmlEvent::Eof);
    assert_eq!(s, ParseState::Done);
}

#[test]
fn apply_event_error_at_top_finishes() {
    let mut rc = RcXml::new();
    assert_eq!(rc.apply_event(ParseState::Top, &XmlEvent::Failed), ParseState::Done);
    assert_eq!(rc.apply_event(ParseState::Core, &XmlEvent::Failed), ParseState::Core);
}

#[test]
fn find_config_path_missing_everywhere() {
    let rc = RcXml::new();
    let r = rc.find_config_path(Some("/nonexistent-home-dir"), Some("/nonexistent-a:/nonexistent-b"));
    assert_eq!(r, None);
}

#[test]
fn locate_prefers_existing_config_file() {
    let mut rc = RcXml::new();
    let r = rc.locate(Some("/"), None, None, Some("/nonexistent"));
    assert_eq!(r, Some("/".to_string()));
    assert_eq!(rc.config_file, Some("/".to_string()));
    assert_eq!(rc.config_dir, None);
}

#[test]
fn ssd_margins() {
    let v = WindowView::new(3, ViewType::XdgShell);
    let ssd = Ssd::create(&v);
    assert_eq!(ssd.view_id, 3);
    let m = ssd.get_margin();
    assert_eq!((m.left, m.right, m.top, m.bottom), (1, 1, 27, 1));
    assert_eq!(ssd.extents(), m);
}

#[test]
fn apply_events_reads_in_order() {
    let mut rc = RcXml::new();
    let evs = vec![
        XmlEvent::Start("keyboard".into()),
        XmlEvent::Empty("keybind".into(), vec![Some(("key".into(), "A-Tab".into()))]),
        XmlEvent::Empty("keybind".into(), vec![None]),
        XmlEvent::Empty("keybind".into(), vec![Some(("key".into(), "W-e".into()))]),
        XmlEvent::End("keyboard".into()),
        XmlEvent::Start("core".into()),
        XmlEvent::Empty("gap".into(), vec![Some(("value".into(), "7".into()))]),
        XmlEvent::End("core".into()),
        XmlEvent::Eof,
        XmlEvent::Start("core".into()),
    ];
    let s = rc.apply_events(ParseState::Top, &evs);
    assert_eq!(s, ParseState::Done);
    assert_eq!(rc.gap, 7);
    assert_eq!(rc.keybinds.len(), 2);
    assert_eq!(rc.keybinds[0].key, "A-Tab");
    assert_eq!(rc.keybinds[1].key, "W-e");
}

#[test]
fn parse_xml_ignores_sections_it_does_not_read() {
    let mut rc = RcXml::new();
    rc.parse_xml("<labwc_config><theme><gap value=\"9\"/></theme><core><gap value=\"oops\"/></core></labwc_config>");
    assert_eq!(rc.gap, 0);
    assert!(rc.keybinds.is_empty());
}
