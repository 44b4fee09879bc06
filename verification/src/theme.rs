//! Openbox-compatible theme: defaults and the `themerc` parser.
use vstd::prelude::*;
use crate::error::ConfigError;
use crate::probe::{path_join, joined_path};
use crate::util::{probe_in_order, take_chosen, chosen, lemma_chosen_is_candidate};
use crate::xdg::entry::strs_view;
use crate::text::{opt_view, all_ws, is_ws, lemma_trim_padded};
use crate::text::{assoc_insert, assoc_set, assoc_view, trim, find_char, lemma_find_char_props, parse_in_range, parse_int_in, string_of, chars_of, trim_bounds, find_char_in, range_eq_str};

verus! {

/// A window theme.
#[derive(Debug, Clone)]
pub struct Theme {
    pub name: String,
    pub border_width: i32,
    pub titlebar_height: i32,
    pub padding_width: i32,
    pub button_size: i32,
    pub menu_overlap: i32,
    pub window: WindowTheme,
    pub menu: MenuTheme,
    pub fonts: FontTheme,
    pub colors: ColorTheme,
}

/// Window decoration colors and title layout.
#[derive(Debug, Clone)]
pub struct WindowTheme {
    pub active_border_color: String,
    pub inactive_border_color: String,
    pub active_title_bg: String,
    pub inactive_title_bg: String,
    pub active_title_fg: String,
    pub inactive_title_fg: String,
    pub active_label_justify: Justify,
    pub button_order: String,
}

/// Title label justification.
#[derive(Debug, Clone, Copy, PartialEq, Eq, Structural)]
pub enum Justify {
    Left,
    Center,
    Right,
}

/// Menu colors.
#[derive(Debug, Clone)]
pub struct MenuTheme {
    pub bg_color: String,
    pub fg_color: String,
    pub active_bg: String,
    pub active_fg: String,
    pub separator_color: String,
    pub border_color: String,
}

/// Fonts.
#[derive(Debug, Clone)]
pub struct FontTheme {
    pub active_font: String,
    pub inactive_font: String,
    pub menu_font: String,
    pub osd_font: String,
}

/// Keys of the theme file that the theme has no field for, with their
/// values; each key occurs once.
#[derive(Debug, Clone)]
pub struct ColorTheme {
    pub custom: Vec<(String, String)>,
}

/// The value of a theme: every string by its characters.
pub struct ThemeView {
    pub name: Seq<char>,
    pub border_width: i32,
    pub titlebar_height: i32,
    pub padding_width: i32,
    pub button_size: i32,
    pub menu_overlap: i32,
    pub active_border_color: Seq<char>,
    pub inactive_border_color: Seq<char>,
    pub active_title_bg: Seq<char>,
    pub inactive_title_bg: Seq<char>,
    pub active_title_fg: Seq<char>,
    pub inactive_title_fg: Seq<char>,
    pub active_label_justify: Justify,
    pub button_order: Seq<char>,
    pub menu_bg_color: Seq<char>,
    pub menu_fg_color: Seq<char>,
    pub menu_active_bg: Seq<char>,
    pub menu_active_fg: Seq<char>,
    pub menu_separator_color: Seq<char>,
    pub menu_border_color: Seq<char>,
    pub active_font: Seq<char>,
    pub inactive_font: Seq<char>,
    pub menu_font: Seq<char>,
    pub osd_font: Seq<char>,
    pub custom: Seq<(Seq<char>, Seq<char>)>,
}

impl Theme {
    pub open spec fn view_of(&self) -> ThemeView {
        ThemeView {
            name: self.name@,
            border_width: self.border_width,
            titlebar_height: self.titlebar_height,
            padding_width: self.padding_width,
            button_size: self.button_size,
            menu_overlap: self.menu_overlap,
            active_border_color: self.window.active_border_color@,
            inactive_border_color: self.window.inactive_border_color@,
            active_title_bg: self.window.active_title_bg@,
            inactive_title_bg: self.window.inactive_title_bg@,
            active_title_fg: self.window.active_title_fg@,
            inactive_title_fg: self.window.inactive_title_fg@,
            active_label_justify: self.window.active_label_justify,
            button_order: self.window.button_order@,
            menu_bg_color: self.menu.bg_color@,
            menu_fg_color: self.menu.fg_color@,
            menu_active_bg: self.menu.active_bg@,
            menu_active_fg: self.menu.active_fg@,
            menu_separator_color: self.menu.separator_color@,
            menu_border_color: self.menu.border_color@,
            active_font: self.fonts.active_font@,
            inactive_font: self.fonts.inactive_font@,
            menu_font: self.fonts.menu_font@,
            osd_font: self.fonts.osd_font@,
            custom: assoc_view(self.colors.custom@),
        }
    }
}

/// The default theme.
pub open spec fn default_theme() -> ThemeView {
    ThemeView {
        name: "default"@,
        border_width: 1,
        titlebar_height: 26,
        padding_width: 3,
        button_size: 18,
        menu_overlap: 0,
        active_border_color: "#1a1a1a"@,
        inactive_border_color: "#555555"@,
        active_title_bg: "#1a1a1a"@,
        inactive_title_bg: "#333333"@,
        active_title_fg: "#ffffff"@,
        inactive_title_fg: "#999999"@,
        active_label_justify: Justify::Center,
        button_order: "CIM"@,
        menu_bg_color: "#1a1a1a"@,
        menu_fg_color: "#ffffff"@,
        menu_active_bg: "#555555"@,
        menu_active_fg: "#ffffff"@,
        menu_separator_color: "#555555"@,
        menu_border_color: "#1a1a1a"@,
        active_font: "sans 10"@,
        inactive_font: "sans 10"@,
        menu_font: "sans 10"@,
        osd_font: "sans 12"@,
        custom: Seq::empty(),
    }
}

/// An integer setting: the parsed value, or the fallback when the value
/// is not an `i32`.
pub open spec fn int_or(val: Seq<char>, fallback: i32) -> i32 {
    match parse_in_range(val, true, i32::MIN as int, i32::MAX as int) {
        Some(x) => x as i32,
        None => fallback,
    }
}

/// The effect of one `key: value` setting.
pub open spec fn apply_setting(t: ThemeView, key: Seq<char>, val: Seq<char>) -> ThemeView {
    if key == "border.width"@ {
        ThemeView { border_width: int_or(val, 1), ..t }
    } else if key == "window.titlebar.height"@ {
        ThemeView { titlebar_height: int_or(val, 26), ..t }
    } else if key == "padding.width"@ {
        ThemeView { padding_width: int_or(val, 3), ..t }
    } else if key == "window.active.border.color"@ {
        ThemeView { active_border_color: val, ..t }
    } else if key == "window.inactive.border.color"@ {
        ThemeView { inactive_border_color: val, ..t }
    } else if key == "window.active.title.bg"@ {
        ThemeView { active_title_bg: val, ..t }
    } else if key == "window.inactive.title.bg"@ {
        ThemeView { inactive_title_bg: val, ..t }
    } else if key == "window.active.title.fg"@ {
        ThemeView { active_title_fg: val, ..t }
    } else if key == "window.inactive.title.fg"@ {
        ThemeView { inactive_title_fg: val, ..t }
    } else if key == "window.label.text.justify"@ {
        ThemeView {
            active_label_justify: if val == "Left"@ {
                Justify::Left
            } else if val == "Right"@ {
                Justify::Right
            } else {
                Justify::Center
            },
            ..t
        }
    } else if key == "menu.items.bg.color"@ {
        ThemeView { menu_bg_color: val, ..t }
    } else if key == "menu.items.text.color"@ {
        ThemeView { menu_fg_color: val, ..t }
    } else if key == "menu.items.active.bg"@ {
        ThemeView { menu_active_bg: val, ..t }
    } else if key == "menu.items.active.text.color"@ {
        ThemeView { menu_active_fg: val, ..t }
    } else if key == "menu.separator.color"@ {
        ThemeView { menu_separator_color: val, ..t }
    } else if key == "menu.border.color"@ {
        ThemeView { menu_border_color: val, ..t }
    } else if key == "window.active.font"@ {
        ThemeView { active_font: val, ..t }
    } else if key == "window.inactive.font"@ {
        ThemeView { inactive_font: val, ..t }
    } else if key == "menu.items.font"@ {
        ThemeView { menu_font: val, ..t }
    } else if key == "osd.font"@ {
        ThemeView { osd_font: val, ..t }
    } else {
        ThemeView { custom: assoc_insert(t.custom, key, val), ..t }
    }
}

/// The effect of one line: blank lines and lines starting with `#` or `!`
/// are comments; other lines set `key: value` when they hold a colon (both
/// sides trimmed).
pub open spec fn apply_theme_line(t: ThemeView, line: Seq<char>) -> ThemeView {
    let l = trim(line);
    if l.len() == 0 || l[0] == '#' || l[0] == '!' {
        t
    } else {
        match find_char(l, ':') {
            Some(i) => apply_setting(t, trim(l.take(i)), trim(l.skip(i + 1))),
            None => t,
        }
    }
}

/// The theme after applying the lines of `s` (separated by newlines) in
/// order.
pub open spec fn apply_theme_text(t: ThemeView, s: Seq<char>) -> ThemeView
    decreases s.len(),
{
    match find_char(s, '\n') {
        Some(i) => {
            proof {
                lemma_find_char_props(s, '\n');
            }
            apply_theme_text(apply_theme_line(t, s.take(i)), s.skip(i + 1))
        },
        None => apply_theme_line(t, s),
    }
}

fn range_str(v: &Vec<char>, lo: usize, hi: usize) -> (s: String)
    requires
        lo <= hi <= v.len(),
    ensures
        s@ == v@.subrange(lo as int, hi as int),
{
    string_of(v, lo, hi)
}

fn int_setting(v: &Vec<char>, lo: usize, hi: usize, fallback: i32) -> (r: i32)
    requires
        lo <= hi <= v.len(),
    ensures
        r == int_or(v@.subrange(lo as int, hi as int), fallback),
{
    match parse_int_in(v, lo, hi, true, i32::MIN as i64, i32::MAX as i64) {
        Some(x) => x as i32,
        None => fallback,
    }
}

impl ColorTheme {
    /// Set `key` to `val`, replacing an existing value of the key.
    pub fn insert(&mut self, key: String, val: String)
        ensures
            assoc_view(final(self).custom@) == assoc_insert(assoc_view(old(self).custom@), key@, val@),
    {
        assoc_set(&mut self.custom, key, val);
    }
}

impl Theme {
    /// Apply one `key: value` setting, the key being `v[klo..khi]` and the
    /// value `v[vlo..vhi]`.
    fn apply_setting_exec(&mut self, v: &Vec<char>, klo: usize, khi: usize, vlo: usize, vhi: usize)
        requires
            klo <= khi <= v.len(),
            vlo <= vhi <= v.len(),
        ensures
            final(self).view_of() == apply_setting(
                old(self).view_of(),
                v@.subrange(klo as int, khi as int),
                v@.subrange(vlo as int, vhi as int),
            ),
    {
        if range_eq_str(v, klo, khi, "border.width") {
            self.border_width = int_setting(v, vlo, vhi, 1);
        } else if range_eq_str(v, klo, khi, "window.titlebar.height") {
            self.titlebar_height = int_setting(v, vlo, vhi, 26);
        } else if range_eq_str(v, klo, khi, "padding.width") {
            self.padding_width = int_setting(v, vlo, vhi, 3);
        } else if range_eq_str(v, klo, khi, "window.active.border.color") {
            self.window.active_border_color = range_str(v, vlo, vhi);
        } else if range_eq_str(v, klo, khi, "window.inactive.border.color") {
            self.window.inactive_border_color = range_str(v, vlo, vhi);
        } else if range_eq_str(v, klo, khi, "window.active.title.bg") {
            self.window.active_title_bg = range_str(v, vlo, vhi);
        } else if range_eq_str(v, klo, khi, "window.inactive.title.bg") {
            self.window.inactive_title_bg = range_str(v, vlo, vhi);
        } else if range_eq_str(v, klo, khi, "window.active.title.fg") {
            self.window.active_title_fg = range_str(v, vlo, vhi);
        } else if range_eq_str(v, klo, khi, "window.inactive.title.fg") {
            self.window.inactive_title_fg = range_str(v, vlo, vhi);
        } else if range_eq_str(v, klo, khi, "window.label.text.justify") {
            self.window.active_label_justify = if range_eq_str(v, vlo, vhi, "Left") {
                Justify::Left
            } else if range_eq_str(v, vlo, vhi, "Right") {
                Justify::Right
            } else {
                Justify::Center
            };
        } else if range_eq_str(v, klo, khi, "menu.items.bg.color") {
            self.menu.bg_color = range_str(v, vlo, vhi);
        } else if range_eq_str(v, klo, khi, "menu.items.text.color") {
            self.menu.fg_color = range_str(v, vlo, vhi);
        } else if range_eq_str(v, klo, khi, "menu.items.active.bg") {
            self.menu.active_bg = range_str(v, vlo, vhi);
        } else if range_eq_str(v, klo, khi, "menu.items.active.text.color") {
            self.menu.active_fg = range_str(v, vlo, vhi);
        } else if range_eq_str(v, klo, khi, "menu.separator.color") {
            self.menu.separator_color = range_str(v, vlo, vhi);
        } else if range_eq_str(v, klo, khi, "menu.border.color") {
            self.menu.border_color = range_str(v, vlo, vhi);
        } else if range_eq_str(v, klo, khi, "window.active.font") {
            self.fonts.active_font = range_str(v, vlo, vhi);
        } else if range_eq_str(v, klo, khi, "window.inactive.font") {
            self.fonts.inactive_font = range_str(v, vlo, vhi);
        } else if range_eq_str(v, klo, khi, "menu.items.font") {
            self.fonts.menu_font = range_str(v, vlo, vhi);
        } else if range_eq_str(v, klo, khi, "osd.font") {
            self.fonts.osd_font = range_str(v, vlo, vhi);
        } else {
            let key = range_str(v, klo, khi);
            let val = range_str(v, vlo, vhi);
            self.colors.insert(key, val);
        }
    }

    /// Apply the line `v[lo..hi]`.
    fn apply_line_exec(&mut self, v: &Vec<char>, lo: usize, hi: usize)
        requires
            lo <= hi <= v.len(),
        ensures
            final(self).view_of() == apply_theme_line(old(self).view_of(), v@.subrange(lo as int, hi as int)),
    {
        let ghost line = v@.subrange(lo as int, hi as int);
        let (a, b) = trim_bounds(v, lo, hi);
        let ghost l = v@.subrange(a as int, b as int);
        if a == b || v[a] == '#' || v[a] == '!' {
            return;
        }
        match find_char_in(v, a, b, ':') {
            Some(i) => {
                proof {
                    lemma_find_char_props(l, ':');
                }
                let (ka, kb) = trim_bounds(v, a, a + i);
                let (va, vb) = trim_bounds(v, a + i + 1, b);
                proof {
                    assert(l.take(i as int) =~= v@.subrange(a as int, a + i));
                    assert(l.skip(i + 1) =~= v@.subrange(a + i + 1, b as int));
                }
                self.apply_setting_exec(v, ka, kb, va, vb);
            },
            None => {},
        }
    }

    /// Parse the text of a `themerc` file over the default theme. Every
    /// input is accepted; the result is named "loaded_theme".
    pub fn parse_themerc(content: &str) -> (r: Result<Theme, ConfigError>)
        ensures
            r is Ok,
            r matches Ok(t) && t.view_of() == (ThemeView {
                name: "loaded_theme"@,
                ..apply_theme_text(default_theme(), content@)
            }),
    {
        let v = chars_of(content);
        let mut theme = Theme::default();
        let mut pos: usize = 0;
        let mut done = false;
        assert(v@.subrange(0, v@.len() as int) =~= v@);
        while !done
            invariant
                pos <= v.len(),
                v@ == content@,
                !done ==> apply_theme_text(default_theme(), v@) == apply_theme_text(
                    theme.view_of(),
                    v@.subrange(pos as int, v@.len() as int),
                ),
                done ==> theme.view_of() == apply_theme_text(default_theme(), v@),
            decreases (if done { 0 } else { v.len() - pos + 1 }),
        {
            let ghost rest = v@.subrange(pos as int, v@.len() as int);
            let ghost before = theme.view_of();
            match find_char_in(&v, pos, v.len(), '\n') {
                Some(i) => {
                    proof {
                        lemma_find_char_props(rest, '\n');
                        assert(rest.take(i as int) =~= v@.subrange(pos as int, pos + i));
                        assert(rest.skip(i + 1) =~= v@.subrange(pos + i + 1, v@.len() as int));
                    }
                    theme.apply_line_exec(&v, pos, pos + i);
                    pos = pos + i + 1;
                },
                None => {
                    theme.apply_line_exec(&v, pos, v.len());
                    done = true;
                },
            }
        }
        theme.name = "loaded_theme".to_owned();
        Ok(theme)
    }
}

impl Default for Theme {
    fn default() -> (t: Theme)
        ensures
            t.view_of() == default_theme(),
    {
        let t = Theme {
            name: "default".to_owned(),
            border_width: 1,
            titlebar_height: 26,
            padding_width: 3,
            button_size: 18,
            menu_overlap: 0,
            window: WindowTheme {
                active_border_color: "#1a1a1a".to_owned(),
                inactive_border_color: "#555555".to_owned(),
                active_title_bg: "#1a1a1a".to_owned(),
                inactive_title_bg: "#333333".to_owned(),
                active_title_fg: "#ffffff".to_owned(),
                inactive_title_fg: "#999999".to_owned(),
                active_label_justify: Justify::Center,
                button_order: "CIM".to_owned(),
            },
            menu: MenuTheme {
                bg_color: "#1a1a1a".to_owned(),
                fg_color: "#ffffff".to_owned(),
                active_bg: "#555555".to_owned(),
                active_fg: "#ffffff".to_owned(),
                separator_color: "#555555".to_owned(),
                border_color: "#1a1a1a".to_owned(),
            },
            fonts: FontTheme {
                active_font: "sans 10".to_owned(),
                inactive_font: "sans 10".to_owned(),
                menu_font: "sans 10".to_owned(),
                osd_font: "sans 12".to_owned(),
            },
            colors: ColorTheme { custom: Vec::new() },
        };
        assert(t.view_of().custom =~= Seq::<(Seq<char>, Seq<char>)>::empty());
        t
    }
}

/// The places a theme named `name` may be found, in order: under the
/// user's configuration directory `config_home`, then among the system's
/// Openbox themes, then among labwc's.
pub open spec fn theme_candidates(config_home: Seq<char>, name: Seq<char>) -> Seq<Seq<char>> {
    seq![
        joined_path(joined_path(joined_path(config_home, "labwc/themes"@), name), "themerc"@),
        joined_path(joined_path("/usr/share/themes"@, name), "openbox-3/themerc"@),
        joined_path(joined_path("/usr/share/labwc/themes"@, name), "themerc"@),
    ]
}

impl Theme {
    /// The candidate places of the theme `name` (see `theme_candidates`).
    pub fn theme_path_candidates(name: &str, config_home: &str) -> (r: Vec<String>)
        ensures
            strs_view(r@) == theme_candidates(config_home@, name@),
    {
        let a = path_join(config_home, "labwc/themes");
        let b = path_join(a.as_str(), name);
        let mut r: Vec<String> = Vec::new();
        r.push(path_join(b.as_str(), "themerc"));
        let c = path_join("/usr/share/themes", name);
        r.push(path_join(c.as_str(), "openbox-3/themerc"));
        let d = path_join("/usr/share/labwc/themes", name);
        r.push(path_join(d.as_str(), "themerc"));
        assert(strs_view(r@) =~= theme_candidates(config_home@, name@));
        r
    }

    /// The `themerc` of the theme `name`: the first of its candidate places
    /// (`theme_candidates`) that exists, probed in order. Without a
    /// configuration directory nothing is searched. What exists depends on
    /// the disk: the result is the candidate chosen by the answers of the
    /// probes (see `chosen`).
    pub fn find_theme_path(name: &str, config_home: Option<&str>) -> (r: Option<String>)
        ensures
            config_home is None ==> r is None,
            config_home matches Some(h) ==> exists|answers: Seq<bool>|
                answers.len() <= 3 && opt_view(r) == chosen(theme_candidates(h@, name@), answers),
            r matches Some(p) ==> config_home matches Some(h) && theme_candidates(h@, name@).contains(p@),
    {
        let h = match config_home {
            Some(h) => h,
            None => return None,
        };
        let cands = Theme::theme_path_candidates(name, h);
        let answers = probe_in_order(&cands, false);
        let r = take_chosen(&cands, &answers);
        proof {
            lemma_chosen_is_candidate(strs_view(cands@), answers@);
        }
        r
    }
}


/// A `key: value` setting sets the field its key names and no other: the
/// colors and fonts take the value as written, the sizes the number it
/// reads as (or their default), `window.label.text.justify` gives `Left`
/// for `Left`, `Right` for `Right` and `Center` for anything else, and
/// an unknown key is kept among the custom settings.
pub proof fn lemma_setting_sets_its_field(t: ThemeView, key: Seq<char>, val: Seq<char>)
    ensures
        ({
            let r = apply_setting(t, key, val);
            let known = key == "border.width"@ || key == "window.titlebar.height"@ || key == "padding.width"@ || key == "window.label.text.justify"@ || key == "window.active.border.color"@ || key == "window.inactive.border.color"@ || key == "window.active.title.bg"@ || key == "window.inactive.title.bg"@ || key == "window.active.title.fg"@ || key == "window.inactive.title.fg"@ || key == "menu.items.bg.color"@ || key == "menu.items.text.color"@ || key == "menu.items.active.bg"@ || key == "menu.items.active.text.color"@ || key == "menu.separator.color"@ || key == "menu.border.color"@ || key == "window.active.font"@ || key == "window.inactive.font"@ || key == "menu.items.font"@ || key == "osd.font"@;
            &&& r.border_width == (if key == "border.width"@ { int_or(val, 1) } else { t.border_width })
            &&& r.titlebar_height == (if key == "window.titlebar.height"@ { int_or(val, 26) } else { t.titlebar_height })
            &&& r.padding_width == (if key == "padding.width"@ { int_or(val, 3) } else { t.padding_width })
            &&& r.active_border_color == (if key == "window.active.border.color"@ { val } else { t.active_border_color })
            &&& r.inactive_border_color == (if key == "window.inactive.border.color"@ { val } else { t.inactive_border_color })
            &&& r.active_title_bg == (if key == "window.active.title.bg"@ { val } else { t.active_title_bg })
            &&& r.inactive_title_bg == (if key == "window.inactive.title.bg"@ { val } else { t.inactive_title_bg })
            &&& r.active_title_fg == (if key == "window.active.title.fg"@ { val } else { t.active_title_fg })
            &&& r.inactive_title_fg == (if key == "window.inactive.title.fg"@ { val } else { t.inactive_title_fg })
            &&& r.menu_bg_color == (if key == "menu.items.bg.color"@ { val } else { t.menu_bg_color })
            &&& r.menu_fg_color == (if key == "menu.items.text.color"@ { val } else { t.menu_fg_color })
            &&& r.menu_active_bg == (if key == "menu.items.active.bg"@ { val } else { t.menu_active_bg })
            &&& r.menu_active_fg == (if key == "menu.items.active.text.color"@ { val } else { t.menu_active_fg })
            &&& r.menu_separator_color == (if key == "menu.separator.color"@ { val } else { t.menu_separator_color })
            &&& r.menu_border_color == (if key == "menu.border.color"@ { val } else { t.menu_border_color })
            &&& r.active_font == (if key == "window.active.font"@ { val } else { t.active_font })
            &&& r.inactive_font == (if key == "window.inactive.font"@ { val } else { t.inactive_font })
            &&& r.menu_font == (if key == "menu.items.font"@ { val } else { t.menu_font })
            &&& r.osd_font == (if key == "osd.font"@ { val } else { t.osd_font })
            &&& r.custom == (if known { t.custom } else { assoc_insert(t.custom, key, val) })
            &&& r.name == t.name && r.button_size == t.button_size && r.menu_overlap == t.menu_overlap
            &&& r.button_order == t.button_order
            &&& key != "window.label.text.justify"@ ==> r.active_label_justify == t.active_label_justify
            &&& key == "window.label.text.justify"@ && val == "Left"@ ==> r.active_label_justify == Justify::Left
            &&& key == "window.label.text.justify"@ && val == "Right"@ ==> r.active_label_justify == Justify::Right
            &&& key == "window.label.text.justify"@ && val != "Left"@ && val != "Right"@ ==> r.active_label_justify == Justify::Center
        }),
{
    reveal_strlit("border.width");
    reveal_strlit("window.titlebar.height");
    reveal_strlit("padding.width");
    reveal_strlit("window.label.text.justify");
    reveal_strlit("window.active.border.color");
    reveal_strlit("window.inactive.border.color");
    reveal_strlit("window.active.title.bg");
    reveal_strlit("window.inactive.title.bg");
    reveal_strlit("window.active.title.fg");
    reveal_strlit("window.inactive.title.fg");
    reveal_strlit("menu.items.bg.color");
    reveal_strlit("menu.items.text.color");
    reveal_strlit("menu.items.active.bg");
    reveal_strlit("menu.items.active.text.color");
    reveal_strlit("menu.separator.color");
    reveal_strlit("menu.border.color");
    reveal_strlit("window.active.font");
    reveal_strlit("window.inactive.font");
    reveal_strlit("menu.items.font");
    reveal_strlit("osd.font");
    reveal_strlit("Left");
    reveal_strlit("Right");
    assert("border.width"@.len() != "window.titlebar.height"@.len());
    assert("border.width"@.len() != "padding.width"@.len());
    assert("border.width"@.len() != "window.label.text.justify"@.len());
    assert("border.width"@.len() != "window.active.border.color"@.len());
    assert("border.width"@.len() != "window.inactive.border.color"@.len());
    assert("border.width"@.len() != "window.active.title.bg"@.len());
    assert("border.width"@.len() != "window.inactive.title.bg"@.len());
    assert("border.width"@.len() != "window.active.title.fg"@.len());
    assert("border.width"@.len() != "window.inactive.title.fg"@.len());
    assert("border.width"@.len() != "menu.items.bg.color"@.len());
    assert("border.width"@.len() != "menu.items.text.color"@.len());
    assert("border.width"@.len() != "menu.items.active.bg"@.len());
    assert("border.width"@.len() != "menu.items.active.text.color"@.len());
    assert("border.width"@.len() != "menu.separator.color"@.len());
    assert("border.width"@.len() != "menu.border.color"@.len());
    assert("border.width"@.len() != "window.active.font"@.len());
    assert("border.width"@.len() != "window.inactive.font"@.len());
    assert("border.width"@.len() != "menu.items.font"@.len());
    assert("border.width"@.len() != "osd.font"@.len());
    assert("window.titlebar.height"@.len() != "padding.width"@.len());
    assert("window.titlebar.height"@.len() != "window.label.text.justify"@.len());
    assert("window.titlebar.height"@.len() != "window.active.border.color"@.len());
    assert("window.titlebar.height"@.len() != "window.inactive.border.color"@.len());
    assert("window.titlebar.height"@[7] != "window.active.title.bg"@[7]);
    assert("window.titlebar.height"@.len() != "window.inactive.title.bg"@.len());
    assert("window.titlebar.height"@[7] != "window.active.title.fg"@[7]);
    assert("window.titlebar.height"@.len() != "window.inactive.title.fg"@.len());
    assert("window.titlebar.height"@.len() != "menu.items.bg.color"@.len());
    assert("window.titlebar.height"@.len() != "menu.items.text.color"@.len());
    assert("window.titlebar.height"@.len() != "menu.items.active.bg"@.len());
    assert("window.titlebar.height"@.len() != "menu.items.active.text.color"@.len());
    assert("window.titlebar.height"@.len() != "menu.separator.color"@.len());
    assert("window.titlebar.height"@.len() != "menu.border.color"@.len());
    assert("window.titlebar.height"@.len() != "window.active.font"@.len());
    assert("window.titlebar.height"@.len() != "window.inactive.font"@.len());
    assert("window.titlebar.height"@.len() != "menu.items.font"@.len());
    assert("window.titlebar.height"@.len() != "osd.font"@.len());
    assert("padding.width"@.len() != "window.label.text.justify"@.len());
    assert("padding.width"@.len() != "window.active.border.color"@.len());
    assert("padding.width"@.len() != "window.inactive.border.color"@.len());
    assert("padding.width"@.len() != "window.active.title.bg"@.len());
    assert("padding.width"@.len() != "window.inactive.title.bg"@.len());
    assert("padding.width"@.len() != "window.active.title.fg"@.len());
    assert("padding.width"@.len() != "window.inactive.title.fg"@.len());
    assert("padding.width"@.len() != "menu.items.bg.color"@.len());
    assert("padding.width"@.len() != "menu.items.text.color"@.len());
    assert("padding.width"@.len() != "menu.items.active.bg"@.len());
    assert("padding.width"@.len() != "menu.items.active.text.color"@.len());
    assert("padding.width"@.len() != "menu.separator.color"@.len());
    assert("padding.width"@.len() != "menu.border.color"@.len());
    assert("padding.width"@.len() != "window.active.font"@.len());
    assert("padding.width"@.len() != "window.inactive.font"@.len());
    assert("padding.width"@.len() != "menu.items.font"@.len());
    assert("padding.width"@.len() != "osd.font"@.len());
    assert("window.label.text.justify"@.len() != "window.active.border.color"@.len());
    assert("window.label.text.justify"@.len() != "window.inactive.border.color"@.len());
    assert("window.label.text.justify"@.len() != "window.active.title.bg"@.len());
    assert("window.label.text.justify"@.len() != "window.inactive.title.bg"@.len());
    assert("window.label.text.justify"@.len() != "window.active.title.fg"@.len());
    assert("window.label.text.justify"@.len() != "window.inactive.title.fg"@.len());
    assert("window.label.text.justify"@.len() != "menu.items.bg.color"@.len());
    assert("window.label.text.justify"@.len() != "menu.items.text.color"@.len());
    assert("window.label.text.justify"@.len() != "menu.items.active.bg"@.len());
    assert("window.label.text.justify"@.len() != "menu.items.active.text.color"@.len());
    assert("window.label.text.justify"@.len() != "menu.separator.color"@.len());
    assert("window.label.text.justify"@.len() != "menu.border.color"@.len());
    assert("window.label.text.justify"@.len() != "window.active.font"@.len());
    assert("window.label.text.justify"@.len() != "window.inactive.font"@.len());
    assert("window.label.text.justify"@.len() != "menu.items.font"@.len());
    assert("window.label.text.justify"@.len() != "osd.font"@.len());
    assert("window.active.border.color"@.len() != "window.inactive.border.color"@.len());
    assert("window.active.border.color"@.len() != "window.active.title.bg"@.len());
    assert("window.active.border.color"@.len() != "window.inactive.title.bg"@.len());
    assert("window.active.border.color"@.len() != "window.active.title.fg"@.len());
    assert("window.active.border.color"@.len() != "window.inactive.title.fg"@.len());
    assert("window.active.border.color"@.len() != "menu.items.bg.color"@.len());
    assert("window.active.border.color"@.len() != "menu.items.text.color"@.len());
    assert("window.active.border.color"@.len() != "menu.items.active.bg"@.len());
    assert("window.active.border.color"@.len() != "menu.items.active.text.color"@.len());
    assert("window.active.border.color"@.len() != "menu.separator.color"@.len());
    assert("window.active.border.color"@.len() != "menu.border.color"@.len());
    assert("window.active.border.color"@.len() != "window.active.font"@.len());
    assert("window.active.border.color"@.len() != "window.inactive.font"@.len());
    assert("window.active.border.color"@.len() != "menu.items.font"@.len());
    assert("window.active.border.color"@.len() != "osd.font"@.len());
    assert("window.inactive.border.color"@.len() != "window.active.title.bg"@.len());
    assert("window.inactive.border.color"@.len() != "window.inactive.title.bg"@.len());
    assert("window.inactive.border.color"@.len() != "window.active.title.fg"@.len());
    assert("window.inactive.border.color"@.len() != "window.inactive.title.fg"@.len());
    assert("window.inactive.border.color"@.len() != "menu.items.bg.color"@.len());
    assert("window.inactive.border.color"@.len() != "menu.items.text.color"@.len());
    assert("window.inactive.border.color"@.len() != "menu.items.active.bg"@.len());
    assert("window.inactive.border.color"@[0] != "menu.items.active.text.color"@[0]);
    assert("window.inactive.border.color"@.len() != "menu.separator.color"@.len());
    assert("window.inactive.border.color"@.len() != "menu.border.color"@.len());
    assert("window.inactive.border.color"@.len() != "window.active.font"@.len());
    assert("window.inactive.border.color"@.len() != "window.inactive.font"@.len());
    assert("window.inactive.border.color"@.len() != "menu.items.font"@.len());
    assert("window.inactive.border.color"@.len() != "osd.font"@.len());
    assert("window.active.title.bg"@.len() != "window.inactive.title.bg"@.len());
    assert("window.active.title.bg"@[20] != "window.active.title.fg"@[20]);
    assert("window.active.title.bg"@.len() != "window.inactive.title.fg"@.len());
    assert("window.active.title.bg"@.len() != "menu.items.bg.color"@.len());
    assert("window.active.title.bg"@.len() != "menu.items.text.color"@.len());
    assert("window.active.title.bg"@.len() != "menu.items.active.bg"@.len());
    assert("window.active.title.bg"@.len() != "menu.items.active.text.color"@.len());
    assert("window.active.title.bg"@.len() != "menu.separator.color"@.len());
    assert("window.active.title.bg"@.len() != "menu.border.color"@.len());
    assert("window.active.title.bg"@.len() != "window.active.font"@.len());
    assert("window.active.title.bg"@.len() != "window.inactive.font"@.len());
    assert("window.active.title.bg"@.len() != "menu.items.font"@.len());
    assert("window.active.title.bg"@.len() != "osd.font"@.len());
    assert("window.inactive.title.bg"@.len() != "window.active.title.fg"@.len());
    assert("window.inactive.title.bg"@[22] != "window.inactive.title.fg"@[22]);
    assert("window.inactive.title.bg"@.len() != "menu.items.bg.color"@.len());
    assert("window.inactive.title.bg"@.len() != "menu.items.text.color"@.len());
    assert("window.inactive.title.bg"@.len() != "menu.items.active.bg"@.len());
    assert("window.inactive.title.bg"@.len() != "menu.items.active.text.color"@.len());
    assert("window.inactive.title.bg"@.len() != "menu.separator.color"@.len());
    assert("window.inactive.title.bg"@.len() != "menu.border.color"@.len());
    assert("window.inactive.title.bg"@.len() != "window.active.font"@.len());
    assert("window.inactive.title.bg"@.len() != "window.inactive.font"@.len());
    assert("window.inactive.title.bg"@.len() != "menu.items.font"@.len());
    assert("window.inactive.title.bg"@.len() != "osd.font"@.len());
    assert("window.active.title.fg"@.len() != "window.inactive.title.fg"@.len());
    assert("window.active.title.fg"@.len() != "menu.items.bg.color"@.len());
    assert("window.active.title.fg"@.len() != "menu.items.text.color"@.len());
    assert("window.active.title.fg"@.len() != "menu.items.active.bg"@.len());
    assert("window.active.title.fg"@.len() != "menu.items.active.text.color"@.len());
    assert("window.active.title.fg"@.len() != "menu.separator.color"@.len());
    assert("window.active.title.fg"@.len() != "menu.border.color"@.len());
    assert("window.active.title.fg"@.len() != "window.active.font"@.len());
    assert("window.active.title.fg"@.len() != "window.inactive.font"@.len());
    assert("window.active.title.fg"@.len() != "menu.items.font"@.len());
    assert("window.active.title.fg"@.len() != "osd.font"@.len());
    assert("window.inactive.title.fg"@.len() != "menu.items.bg.color"@.len());
    assert("window.inactive.title.fg"@.len() != "menu.items.text.color"@.len());
    assert("window.inactive.title.fg"@.len() != "menu.items.active.bg"@.len());
    assert("window.inactive.title.fg"@.len() != "menu.items.active.text.color"@.len());
    assert("window.inactive.title.fg"@.len() != "menu.separator.color"@.len());
    assert("window.inactive.title.fg"@.len() != "menu.border.color"@.len());
    assert("window.inactive.title.fg"@.len() != "window.active.font"@.len());
    assert("window.inactive.title.fg"@.len() != "window.inactive.font"@.len());
    assert("window.inactive.title.fg"@.len() != "menu.items.font"@.len());
    assert("window.inactive.title.fg"@.len() != "osd.font"@.len());
    assert("menu.items.bg.color"@.len() != "menu.items.text.color"@.len());
    assert("menu.items.bg.color"@.len() != "menu.items.active.bg"@.len());
    assert("menu.items.bg.color"@.len() != "menu.items.active.text.color"@.len());
    assert("menu.items.bg.color"@.len() != "menu.separator.color"@.len());
    assert("menu.items.bg.color"@.len() != "menu.border.color"@.len());
    assert("menu.items.bg.color"@.len() != "window.active.font"@.len());
    assert("menu.items.bg.color"@.len() != "window.inactive.font"@.len());
    assert("menu.items.bg.color"@.len() != "menu.items.font"@.len());
    assert("menu.items.bg.color"@.len() != "osd.font"@.len());
    assert("menu.items.text.color"@.len() != "menu.items.active.bg"@.len());
    assert("menu.items.text.color"@.len() != "menu.items.active.text.color"@.len());
    assert("menu.items.text.color"@.len() != "menu.separator.color"@.len());
    assert("menu.items.text.color"@.len() != "menu.border.color"@.len());
    assert("menu.items.text.color"@.len() != "window.active.font"@.len());
    assert("menu.items.text.color"@.len() != "window.inactive.font"@.len());
    assert("menu.items.text.color"@.len() != "menu.items.font"@.len());
    assert("menu.items.text.color"@.len() != "osd.font"@.len());
    assert("menu.items.active.bg"@.len() != "menu.items.active.text.color"@.len());
    assert("menu.items.active.bg"@[5] != "menu.separator.color"@[5]);
    assert("menu.items.active.bg"@.len() != "menu.border.color"@.len());
    assert("menu.items.active.bg"@.len() != "window.active.font"@.len());
    assert("menu.items.active.bg"@[0] != "window.inactive.font"@[0]);
    assert("menu.items.active.bg"@.len() != "menu.items.font"@.len());
    assert("menu.items.active.bg"@.len() != "osd.font"@.len());
    assert("menu.items.active.text.color"@.len() != "menu.separator.color"@.len());
    assert("menu.items.active.text.color"@.len() != "menu.border.color"@.len());
    assert("menu.items.active.text.color"@.len() != "window.active.font"@.len());
    assert("menu.items.active.text.color"@.len() != "window.inactive.font"@.len());
    assert("menu.items.active.text.color"@.len() != "menu.items.font"@.len());
    assert("menu.items.active.text.color"@.len() != "osd.font"@.len());
    assert("menu.separator.color"@.len() != "menu.border.color"@.len());
    assert("menu.separator.color"@.len() != "window.active.font"@.len());
    assert("menu.separator.color"@[0] != "window.inactive.font"@[0]);
    assert("menu.separator.color"@.len() != "menu.items.font"@.len());
    assert("menu.separator.color"@.len() != "osd.font"@.len());
    assert("menu.border.color"@.len() != "window.active.font"@.len());
    assert("menu.border.color"@.len() != "window.inactive.font"@.len());
    assert("menu.border.color"@.len() != "menu.items.font"@.len());
    assert("menu.border.color"@.len() != "osd.font"@.len());
    assert("window.active.font"@.len() != "window.inactive.font"@.len());
    assert("window.active.font"@.len() != "menu.items.font"@.len());
    assert("window.active.font"@.len() != "osd.font"@.len());
    assert("window.inactive.font"@.len() != "menu.items.font"@.len());
    assert("window.inactive.font"@.len() != "osd.font"@.len());
    assert("menu.items.font"@.len() != "osd.font"@.len());
    assert("Left"@.len() != "Right"@.len());
}


/// A themerc line `key: value` sets `key` to `value`, whatever white space
/// stands around the key, around the colon and at the end of the line:
/// for a key without a colon that does not start a comment (`#` or `!`),
/// and a value, neither of which starts or ends with white space.
pub proof fn lemma_theme_line_sets(
    t: ThemeView,
    w1: Seq<char>,
    key: Seq<char>,
    wk: Seq<char>,
    w2: Seq<char>,
    val: Seq<char>,
    w3: Seq<char>,
)
    requires
        all_ws(w1),
        all_ws(wk),
        all_ws(w2),
        all_ws(w3),
        key.len() > 0,
        !is_ws(key[0]),
        !is_ws(key.last()),
        key[0] != '#',
        key[0] != '!',
        forall|j: int| 0 <= j < key.len() ==> key[j] != ':',
        val.len() > 0,
        !is_ws(val[0]),
        !is_ws(val.last()),
    ensures
        apply_theme_line(t, w1 + key + wk + seq![':'] + w2 + val + w3) == apply_setting(t, key, val),
{
    let mid = key + wk + seq![':'] + w2 + val;
    assert(w1 + key + wk + seq![':'] + w2 + val + w3 =~= w1 + mid + w3);
    assert(mid[0] == key[0]);
    assert(mid.last() == val.last());
    lemma_trim_padded(w1, mid, w3);
    let l = trim(w1 + key + wk + seq![':'] + w2 + val + w3);
    assert(l == mid);
    lemma_find_char_props(l, ':');
    let k: int = (key.len() + wk.len()) as int;
    assert(l[k] == ':');
    assert forall|j: int| 0 <= j < k implies l[j] != ':' by {
        if j < key.len() {
            assert(l[j] == key[j]);
        } else {
            assert(l[j] == wk[j - key.len()]);
            assert(is_ws(wk[j - key.len()]));
        }
    }
    assert(find_char(l, ':') == Some(k));
    assert(l.take(k) =~= Seq::<char>::empty() + key + wk);
    lemma_trim_padded(Seq::empty(), key, wk);
    assert(l.skip(k + 1) =~= w2 + val + Seq::<char>::empty());
    lemma_trim_padded(w2, val, Seq::empty());
}

} // verus!
