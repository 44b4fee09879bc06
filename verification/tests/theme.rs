use labwc::theme::Theme;

#[test]
fn test_theme_default() {
    let t = Theme::default();
    assert_eq!(t.border_width, 1);
    assert_eq!(t.titlebar_height, 26);
}

#[test]
fn test_parse_themerc() {
    let content =
        "border.width: 2\nwindow.titlebar.height: 30\nwindow.active.border.color: #ff0000\n";
    let theme = Theme::parse_themerc(content).unwrap();
    assert_eq!(theme.border_width, 2);
    assert_eq!(theme.titlebar_height, 30);
    assert_eq!(theme.window.active_border_color, "#ff0000");
}

#[test]
fn test_parse_empty() {
    let theme = Theme::parse_themerc("").unwrap();
    assert_eq!(theme.border_width, 1);
}

#[test]
fn test_parse_comment() {
    let content = "# this is a comment\n! also a comment\nborder.width: 3\n";
    let theme = Theme::parse_themerc(content).unwrap();
    assert_eq!(theme.border_width, 3);
}
