//! Desktop entry parser, after the freedesktop.org Desktop Entry
//! Specification.
//!
//! Parses the text of `.desktop` files and gives typed access to the
//! standard keys: Name, Exec, Icon, Type, Categories, Terminal,
//! StartupWMClass and the others.
use vstd::prelude::*;
use crate::text::{trim, find_char, lemma_find_char_props, find_char_in, trim_bounds, string_of, chars_of, range_eq_str, str_eq, assoc_insert, assoc_set, assoc_view, ascii_lower_seq, eq_ignore_ascii_case, is_ws, char_is_ws, starts_with_lit, opt_view, all_ws, lemma_trim_padded};
use crate::util::{executable_candidates, executable_candidates_spec, probe_in_order, first_existing, first_true};


verus! {

broadcast use vstd::std_specs::vec::group_vec_axioms;

/// The kind of a desktop entry (its `Type` key).
#[derive(Debug, Clone, Copy, PartialEq, Eq, Structural)]
pub enum EntryType {
    Application,
    Link,
    Directory,
    Unknown,
}

/// The entry type a `Type` value names.
pub open spec fn entry_type_of(s: Seq<char>) -> EntryType {
    if s == "Application"@ {
        EntryType::Application
    } else if s == "Link"@ {
        EntryType::Link
    } else if s == "Directory"@ {
        EntryType::Directory
    } else {
        EntryType::Unknown
    }
}

impl EntryType {
    /// The entry type a `Type` value names; anything else is `Unknown`.
    pub fn parse_type(s: &str) -> (t: EntryType)
        ensures
            t == entry_type_of(s@),
    {
        if str_eq(s, "Application") {
            EntryType::Application
        } else if str_eq(s, "Link") {
            EntryType::Link
        } else if str_eq(s, "Directory") {
            EntryType::Directory
        } else {
            EntryType::Unknown
        }
    }

    /// The name of the type.
    pub fn as_str(&self) -> (s: &'static str)
        ensures
            s@ == match *self {
                EntryType::Application => "Application"@,
                EntryType::Link => "Link"@,
                EntryType::Directory => "Directory"@,
                EntryType::Unknown => "Unknown"@,
            },
    {
        match self {
            EntryType::Application => "Application",
            EntryType::Link => "Link",
            EntryType::Directory => "Directory",
            EntryType::Unknown => "Unknown",
        }
    }
}

/// A `[Desktop Action ...]` group of an entry.
#[derive(Debug, Clone)]
pub struct DesktopAction {
    pub id: String,
    pub name: String,
    pub icon: Option<String>,
    pub exec_line: Option<String>,
}

/// A parsed desktop entry. `raw` holds the keys of the main group that
/// have no field of their own, each key once.
#[derive(Debug, Clone)]
pub struct DesktopEntry {
    pub path: String,
    pub name: String,
    pub generic_name: Option<String>,
    pub comment: Option<String>,
    pub icon: Option<String>,
    pub exec_line: Option<String>,
    pub try_exec: Option<String>,
    pub working_dir: Option<String>,
    pub entry_type: EntryType,
    pub categories: Vec<String>,
    pub mime_types: Vec<String>,
    pub terminal: bool,
    pub no_display: bool,
    pub hidden: bool,
    pub startup_wm_class: Option<String>,
    pub startup_notify: bool,
    pub only_show_in: Vec<String>,
    pub not_show_in: Vec<String>,
    pub dbus_activatable: bool,
    pub prefers_non_default_gpu: bool,
    pub single_main_window: bool,
    pub actions: Vec<DesktopAction>,
    pub raw: Vec<(String, String)>,
    pub locale_name: String,
}

/// The text of an optional string slice.
pub open spec fn opt_str_view(o: Option<&str>) -> Option<Seq<char>> {
    match o {
        Some(s) => Some(s@),
        None => None,
    }
}

/// The texts of a list of strings.
pub open spec fn strs_view(v: Seq<String>) -> Seq<Seq<char>> {
    v.map_values(|s: String| s@)
}

/// The value of a desktop action.
pub struct ActionView {
    pub id: Seq<char>,
    pub name: Seq<char>,
    pub icon: Option<Seq<char>>,
    pub exec_line: Option<Seq<char>>,
}

/// The value of a desktop entry.
pub struct EntryView {
    pub path: Seq<char>,
    pub name: Seq<char>,
    pub generic_name: Option<Seq<char>>,
    pub comment: Option<Seq<char>>,
    pub icon: Option<Seq<char>>,
    pub exec_line: Option<Seq<char>>,
    pub try_exec: Option<Seq<char>>,
    pub working_dir: Option<Seq<char>>,
    pub entry_type: EntryType,
    pub categories: Seq<Seq<char>>,
    pub mime_types: Seq<Seq<char>>,
    pub terminal: bool,
    pub no_display: bool,
    pub hidden: bool,
    pub startup_wm_class: Option<Seq<char>>,
    pub startup_notify: bool,
    pub only_show_in: Seq<Seq<char>>,
    pub not_show_in: Seq<Seq<char>>,
    pub dbus_activatable: bool,
    pub prefers_non_default_gpu: bool,
    pub single_main_window: bool,
    pub actions: Seq<ActionView>,
    pub raw: Seq<(Seq<char>, Seq<char>)>,
    pub locale_name: Seq<char>,
}

impl DesktopAction {
    pub open spec fn view_of(&self) -> ActionView {
        ActionView {
            id: self.id@,
            name: self.name@,
            icon: opt_view(self.icon),
            exec_line: opt_view(self.exec_line),
        }
    }
}

impl DesktopEntry {
    pub open spec fn view_of(&self) -> EntryView {
        EntryView {
            path: self.path@,
            name: self.name@,
            generic_name: opt_view(self.generic_name),
            comment: opt_view(self.comment),
            icon: opt_view(self.icon),
            exec_line: opt_view(self.exec_line),
            try_exec: opt_view(self.try_exec),
            working_dir: opt_view(self.working_dir),
            entry_type: self.entry_type,
            categories: strs_view(self.categories@),
            mime_types: strs_view(self.mime_types@),
            terminal: self.terminal,
            no_display: self.no_display,
            hidden: self.hidden,
            startup_wm_class: opt_view(self.startup_wm_class),
            startup_notify: self.startup_notify,
            only_show_in: strs_view(self.only_show_in@),
            not_show_in: strs_view(self.not_show_in@),
            dbus_activatable: self.dbus_activatable,
            prefers_non_default_gpu: self.prefers_non_default_gpu,
            single_main_window: self.single_main_window,
            actions: self.actions@.map_values(|a: DesktopAction| a.view_of()),
            raw: assoc_view(self.raw@),
            locale_name: self.locale_name@,
        }
    }
}

/// `s` starts with `p`.
pub open spec fn starts_with(s: Seq<char>, p: Seq<char>) -> bool {
    p.len() <= s.len() && s.take(p.len() as int) == p
}

/// The non-empty pieces of `s` between `;` separators, in order.
pub open spec fn split_list(s: Seq<char>) -> Seq<Seq<char>>
    decreases s.len(),
{
    match find_char(s, ';') {
        Some(i) => {
            proof {
                lemma_find_char_props(s, ';');
            }
            let rest = split_list(s.skip(i + 1));
            if i == 0 {
                rest
            } else {
                seq![s.take(i)] + rest
            }
        },
        None => if s.len() == 0 {
            Seq::empty()
        } else {
            seq![s]
        },
    }
}

/// `s` up to the first `c`, or all of `s`.
pub open spec fn first_piece(s: Seq<char>, c: char) -> Seq<char> {
    match find_char(s, c) {
        Some(i) => s.take(i),
        None => s,
    }
}

/// The locales a name may be chosen for, most preferred first: the
/// language setting, that setting without its encoding, its language
/// alone, then `C`.
pub open spec fn locales_for(lang: Option<Seq<char>>) -> Seq<Seq<char>> {
    match lang {
        Some(l) => {
            let short = first_piece(l, '.');
            let head = if short != l {
                seq![l, short]
            } else {
                seq![l]
            };
            head.push(first_piece(l, '_')).push(seq!['C'])
        },
        None => seq![seq!['C']],
    }
}

/// The position of the first locale that starts with `lang`.
pub open spec fn first_locale_match(locales: Seq<Seq<char>>, lang: Seq<char>) -> Option<int>
    decreases locales.len(),
{
    if locales.len() == 0 {
        None
    } else if starts_with(locales[0], lang) {
        Some(0)
    } else {
        match first_locale_match(locales.drop_first(), lang) {
            Some(i) => Some(i + 1),
            None => None,
        }
    }
}

/// The state of the parser between two lines.
pub struct ParseState {
    pub entry: EntryView,
    pub group: Seq<char>,
    pub in_entry: bool,
    pub action_id: Seq<char>,
    pub action_name: Seq<char>,
    pub action_icon: Option<Seq<char>>,
    pub action_exec: Option<Seq<char>>,
    pub best_name: Seq<char>,
    pub best_prio: int,
}

/// An entry with every field at its default.
pub open spec fn initial_entry(path: Seq<char>) -> EntryView {
    EntryView {
        path,
        name: Seq::empty(),
        generic_name: None,
        comment: None,
        icon: None,
        exec_line: None,
        try_exec: None,
        working_dir: None,
        entry_type: EntryType::Application,
        categories: Seq::empty(),
        mime_types: Seq::empty(),
        terminal: false,
        no_display: false,
        hidden: false,
        startup_wm_class: None,
        startup_notify: true,
        only_show_in: Seq::empty(),
        not_show_in: Seq::empty(),
        dbus_activatable: false,
        prefers_non_default_gpu: false,
        single_main_window: false,
        actions: Seq::empty(),
        raw: Seq::empty(),
        locale_name: Seq::empty(),
    }
}

pub open spec fn initial_state(path: Seq<char>) -> ParseState {
    ParseState {
        entry: initial_entry(path),
        group: Seq::empty(),
        in_entry: false,
        action_id: Seq::empty(),
        action_name: Seq::empty(),
        action_icon: None,
        action_exec: None,
        best_name: Seq::empty(),
        best_prio: 0,
    }
}

/// A key of the main group that has no field of its own: it goes to
/// `raw`, and a `Name[lang]` key may give the localized name.
pub open spec fn apply_other_key(
    st: ParseState,
    key: Seq<char>,
    value: Seq<char>,
    locales: Seq<Seq<char>>,
) -> ParseState {
    let named = if key.len() >= 6 && starts_with(key, "Name["@) && key.last() == ']' {
        match first_locale_match(locales, key.subrange(5, key.len() - 1)) {
            Some(i) => if 200 - i > st.best_prio {
                ParseState { best_name: value, best_prio: 200 - i, ..st }
            } else {
                st
            },
            None => st,
        }
    } else {
        st
    };
    ParseState { entry: EntryView { raw: assoc_insert(st.entry.raw, key, value), ..st.entry }, ..named }
}

/// The fields of the main group that hold text.
pub open spec fn apply_text_key(e: EntryView, key: Seq<char>, value: Seq<char>) -> EntryView {
    if key == "GenericName"@ {
        EntryView { generic_name: Some(value), ..e }
    } else if key == "Comment"@ {
        EntryView { comment: Some(value), ..e }
    } else if key == "Icon"@ {
        EntryView { icon: Some(value), ..e }
    } else if key == "Exec"@ {
        EntryView { exec_line: Some(value), ..e }
    } else if key == "TryExec"@ {
        EntryView { try_exec: Some(value), ..e }
    } else if key == "Path"@ {
        EntryView { working_dir: Some(value), ..e }
    } else if key == "StartupWMClass"@ {
        EntryView { startup_wm_class: Some(value), ..e }
    } else if key == "Categories"@ {
        EntryView { categories: split_list(value), ..e }
    } else if key == "MimeType"@ {
        EntryView { mime_types: split_list(value), ..e }
    } else if key == "OnlyShowIn"@ {
        EntryView { only_show_in: split_list(value), ..e }
    } else {
        EntryView { not_show_in: split_list(value), ..e }
    }
}

/// The keys handled by `apply_text_key`.
pub open spec fn is_text_key(key: Seq<char>) -> bool {
    ||| key == "GenericName"@
    ||| key == "Comment"@
    ||| key == "Icon"@
    ||| key == "Exec"@
    ||| key == "TryExec"@
    ||| key == "Path"@
    ||| key == "StartupWMClass"@
    ||| key == "Categories"@
    ||| key == "MimeType"@
    ||| key == "OnlyShowIn"@
    ||| key == "NotShowIn"@
}

/// The boolean fields of the main group: `true` sets them, except
/// `StartupNotify`, which only `false` clears.
pub open spec fn apply_flag_key(e: EntryView, key: Seq<char>, value: Seq<char>) -> EntryView {
    let t = value == "true"@;
    if key == "Terminal"@ {
        EntryView { terminal: t, ..e }
    } else if key == "NoDisplay"@ {
        EntryView { no_display: t, ..e }
    } else if key == "Hidden"@ {
        EntryView { hidden: t, ..e }
    } else if key == "StartupNotify"@ {
        EntryView { startup_notify: value != "false"@, ..e }
    } else if key == "DBusActivatable"@ {
        EntryView { dbus_activatable: t, ..e }
    } else if key == "PrefersNonDefaultGPU"@ {
        EntryView { prefers_non_default_gpu: t, ..e }
    } else {
        EntryView { single_main_window: t, ..e }
    }
}

/// The keys handled by `apply_flag_key`.
pub open spec fn is_flag_key(key: Seq<char>) -> bool {
    ||| key == "Terminal"@
    ||| key == "NoDisplay"@
    ||| key == "Hidden"@
    ||| key == "StartupNotify"@
    ||| key == "DBusActivatable"@
    ||| key == "PrefersNonDefaultGPU"@
    ||| key == "SingleMainWindow"@
}

/// A `key=value` line of the main group.
pub open spec fn apply_main_key(
    st: ParseState,
    key: Seq<char>,
    value: Seq<char>,
    locales: Seq<Seq<char>>,
) -> ParseState {
    if key == "Type"@ {
        ParseState { entry: EntryView { entry_type: entry_type_of(value), ..st.entry }, ..st }
    } else if key == "Name"@ {
        ParseState {
            entry: EntryView { name: value, ..st.entry },
            best_name: value,
            best_prio: 100,
            ..st
        }
    } else if is_text_key(key) {
        ParseState { entry: apply_text_key(st.entry, key, value), ..st }
    } else if is_flag_key(key) {
        ParseState { entry: apply_flag_key(st.entry, key, value), ..st }
    } else {
        apply_other_key(st, key, value, locales)
    }
}

/// A `key=value` line of a `[Desktop Action ...]` group.
pub open spec fn apply_action_key(st: ParseState, key: Seq<char>, value: Seq<char>) -> ParseState {
    if key == "Name"@ {
        ParseState { action_name: value, ..st }
    } else if key == "Icon"@ {
        ParseState { action_icon: Some(value), ..st }
    } else if key == "Exec"@ {
        ParseState { action_exec: Some(value), ..st }
    } else {
        st
    }
}

/// A group header `[g]`: `Desktop Entry` enters the main group, a
/// `Desktop Action id` group starts a new action named `id`.
pub open spec fn apply_header(st: ParseState, g: Seq<char>) -> ParseState {
    if g == "Desktop Entry"@ {
        ParseState { in_entry: true, group: g, ..st }
    } else if starts_with(g, "Desktop Action "@) {
        let id = g.skip("Desktop Action "@.len() as int);
        ParseState {
            in_entry: false,
            group: g,
            action_id: id,
            action_name: id,
            action_icon: None,
            action_exec: None,
            ..st
        }
    } else {
        ParseState { in_entry: false, group: g, ..st }
    }
}

/// The effect of one line. Blank lines and `#` comments are skipped; a
/// line in brackets is a group header; otherwise the line up to its first
/// `=` is the key and the rest the value, both trimmed. Keys before any
/// header count as keys of the main group.
pub open spec fn apply_entry_line(st: ParseState, line: Seq<char>, locales: Seq<Seq<char>>) -> ParseState {
    let l = trim(line);
    if l.len() == 0 || l[0] == '#' {
        st
    } else if l.len() >= 2 && l[0] == '[' && l.last() == ']' {
        apply_header(st, l.subrange(1, l.len() - 1))
    } else {
        match find_char(l, '=') {
            Some(i) => {
                let key = trim(l.take(i));
                let value = trim(l.skip(i + 1));
                if st.in_entry || st.group.len() == 0 {
                    apply_main_key(st, key, value, locales)
                } else if starts_with(st.group, "Desktop Action "@) {
                    apply_action_key(st, key, value)
                } else {
                    st
                }
            },
            None => st,
        }
    }
}

/// The state after the lines of `s` (separated by newlines), in order.
pub open spec fn apply_entry_text(st: ParseState, s: Seq<char>, locales: Seq<Seq<char>>) -> ParseState
    decreases s.len(),
{
    match find_char(s, '\n') {
        Some(i) => {
            proof {
                lemma_find_char_props(s, '\n');
            }
            apply_entry_text(apply_entry_line(st, s.take(i), locales), s.skip(i + 1), locales)
        },
        None => apply_entry_line(st, s, locales),
    }
}

/// The entry at the end of the text: the best name becomes the localized
/// name, and the last action group read, if it has an id, the one action.
pub open spec fn finish_entry(st: ParseState) -> EntryView {
    let e = if st.best_name.len() > 0 {
        EntryView { locale_name: st.best_name, ..st.entry }
    } else {
        st.entry
    };
    if st.action_id.len() > 0 {
        EntryView {
            actions: e.actions.push(
                ActionView {
                    id: st.action_id,
                    name: st.action_name,
                    icon: st.action_icon,
                    exec_line: st.action_exec,
                },
            ),
            ..e
        }
    } else {
        e
    }
}

/// The fields read from `content`, for the language setting `lang`.
pub open spec fn parsed_entry(content: Seq<char>, path: Seq<char>, lang: Option<Seq<char>>) -> EntryView {
    finish_entry(apply_entry_text(initial_state(path), content, locales_for(lang)))
}

/// `r` is what `DesktopEntry::parse_str` may give for the file `path`
/// holding `text`, read for the locale `lang`: the parsed entry where it is
/// listed (and, for one with `TryExec`, its program was found), never an
/// entry that is not listed, and always one that is listed without
/// `TryExec`; `None` where the file is not a desktop file or was not read.
pub open spec fn entry_of_file(
    r: Option<DesktopEntry>,
    path: Seq<char>,
    text: Option<Seq<char>>,
    lang: Option<Seq<char>>,
    desktop: bool,
) -> bool {
    match text {
        Some(t) => if desktop {
            let e = parsed_entry(t, path, lang);
            &&& r matches Some(d) ==> d.view_of() == e && is_listed(e)
            &&& is_listed(e) && e.try_exec is None ==> r is Some
            &&& !is_listed(e) ==> r is None
        } else {
            r is None
        },
        None => r is None,
    }
}

/// An entry that is listed: it has a name, is an application, and is
/// neither hidden nor marked `NoDisplay`.
pub open spec fn is_listed(e: EntryView) -> bool {
    e.name.len() > 0 && e.entry_type == EntryType::Application && !e.hidden && !e.no_display
}


/// The strings between `;` separators in `v[lo..hi]`, empty ones left out.
pub fn split_list_in(v: &Vec<char>, lo: usize, hi: usize) -> (r: Vec<String>)
    requires
        lo <= hi <= v.len(),
    ensures
        strs_view(r@) == split_list(v@.subrange(lo as int, hi as int)),
{
    let ghost whole = v@.subrange(lo as int, hi as int);
    let mut out: Vec<String> = Vec::new();
    let mut pos = lo;
    let mut done = false;
    assert(strs_view(out@) =~= Seq::<Seq<char>>::empty());
    while !done
        invariant
            lo <= pos <= hi <= v.len(),
            whole == v@.subrange(lo as int, hi as int),
            !done ==> split_list(whole) == strs_view(out@) + split_list(
                v@.subrange(pos as int, hi as int),
            ),
            done ==> split_list(whole) == strs_view(out@),
        decreases (if done { 0 } else { hi - pos + 1 }),
    {
        let ghost rest = v@.subrange(pos as int, hi as int);
        let ghost before = strs_view(out@);
        match find_char_in(v, pos, hi, ';') {
            Some(i) => {
                proof {
                    lemma_find_char_props(rest, ';');
                    assert(rest.take(i as int) =~= v@.subrange(pos as int, pos + i));
                    assert(rest.skip(i + 1) =~= v@.subrange(pos + i + 1, hi as int));
                }
                if i > 0 {
                    let piece = string_of(v, pos, pos + i);
                    out.push(piece);
                    proof {
                        assert(strs_view(out@) =~= before.push(piece@));
                        assert(before + (seq![rest.take(i as int)] + split_list(rest.skip(i + 1)))
                            =~= before.push(piece@) + split_list(rest.skip(i + 1)));
                    }
                }
                pos = pos + i + 1;
            },
            None => {
                if pos < hi {
                    let piece = string_of(v, pos, hi);
                    out.push(piece);
                    proof {
                        assert(strs_view(out@) =~= before.push(piece@));
                        assert(before + seq![rest] =~= before.push(piece@));
                    }
                } else {
                    assert(before + Seq::<Seq<char>>::empty() =~= before);
                }
                done = true;
            },
        }
    }
    out
}

/// The string `v[lo..hi]`.
fn range_string(v: &Vec<char>, lo: usize, hi: usize) -> (s: String)
    requires
        lo <= hi <= v.len(),
    ensures
        s@ == v@.subrange(lo as int, hi as int),
{
    string_of(v, lo, hi)
}

/// `s` up to the first `c`, or all of `s`.
fn first_piece_of(s: &str, c: char) -> (r: String)
    ensures
        r@ == first_piece(s@, c),
{
    let v = chars_of(s);
    match find_char_in(&v, 0, v.len(), c) {
        Some(i) => {
            proof {
                lemma_find_char_props(v@, c);
                assert(v@.subrange(0, v@.len() as int) =~= v@);
                assert(v@.take(i as int) =~= v@.subrange(0, i as int));
            }
            string_of(&v, 0, i)
        },
        None => {
            assert(v@.subrange(0, v@.len() as int) =~= v@);
            string_of(&v, 0, v.len())
        },
    }
}

/// `s` starts with `p[lo..hi]`.
fn starts_with_range(s: &Vec<char>, p: &Vec<char>, lo: usize, hi: usize) -> (b: bool)
    requires
        lo <= hi <= p.len(),
    ensures
        b == starts_with(s@, p@.subrange(lo as int, hi as int)),
{
    let ghost q = p@.subrange(lo as int, hi as int);
    if hi - lo > s.len() {
        return false;
    }
    let mut i: usize = 0;
    while i < hi - lo
        invariant
            lo <= hi <= p.len(),
            hi - lo <= s.len(),
            q == p@.subrange(lo as int, hi as int),
            i <= hi - lo,
            forall|j: int| 0 <= j < i ==> s@[j] == q[j],
        decreases hi - lo - i,
    {
        if s[i] != p[lo + i] {
            assert(s@.take(q.len() as int)[i as int] != q[i as int]);
            return false;
        }
        i = i + 1;
    }
    assert(s@.take(q.len() as int) =~= q);
    true
}

/// The locales a name may be chosen for, most preferred first, given the
/// language setting (the value of `LANG`, where it is set).
pub fn user_locales(lang: Option<&str>) -> (r: Vec<String>)
    ensures
        strs_view(r@) == locales_for(opt_str_view(lang)),
        r@.len() <= 4,
{
    let mut locales: Vec<String> = Vec::new();
    match lang {
        Some(l) => {
            locales.push(l.to_owned());
            let short = first_piece_of(l, '.');
            let ghost sv = short@;
            if !str_eq(short.as_str(), l) {
                locales.push(short);
                assert(strs_view(locales@) =~= seq![l@, sv]);
            } else {
                assert(strs_view(locales@) =~= seq![l@]);
            }
            let head = first_piece_of(l, '_');
            let ghost before = strs_view(locales@);
            locales.push(head);
            assert(strs_view(locales@) =~= before.push(first_piece(l@, '_')));
        },
        None => {
            assert(strs_view(locales@) =~= Seq::<Seq<char>>::empty());
        },
    }
    let ghost before = strs_view(locales@);
    locales.push("C".to_owned());
    proof {
        reveal_strlit("C");
        assert("C"@ =~= seq!['C']);
        assert(strs_view(locales@) =~= before.push(seq!['C']));
        assert(strs_view(locales@) =~= locales_for(opt_str_view(lang)));
    }
    locales
}

proof fn lemma_first_locale_match_at(ls: Seq<Seq<char>>, lang: Seq<char>, i: int)
    requires
        0 <= i <= ls.len(),
        forall|j: int| 0 <= j < i ==> !starts_with(#[trigger] ls[j], lang),
        i == ls.len() || starts_with(ls[i], lang),
    ensures
        first_locale_match(ls, lang) == (if i == ls.len() { None::<int> } else { Some(i) }),
    decreases i,
{
    if i > 0 {
        let t = ls.drop_first();
        assert forall|j: int| 0 <= j < i - 1 implies !starts_with(#[trigger] t[j], lang) by {
            assert(t[j] == ls[j + 1]);
        }
        lemma_first_locale_match_at(t, lang, i - 1);
    }
}

/// The position of the first of `locales` that starts with `v[lo..hi]`.
fn locale_match(locales: &Vec<String>, v: &Vec<char>, lo: usize, hi: usize) -> (r: Option<usize>)
    requires
        lo <= hi <= v.len(),
    ensures
        match r {
            Some(i) => first_locale_match(strs_view(locales@), v@.subrange(lo as int, hi as int))
                == Some(i as int),
            None => first_locale_match(strs_view(locales@), v@.subrange(lo as int, hi as int))
                is None,
        },
        r matches Some(i) ==> i < locales@.len(),
{
    let ghost ls = strs_view(locales@);
    let ghost lang = v@.subrange(lo as int, hi as int);
    let mut i: usize = 0;
    while i < locales.len()
        invariant
            lo <= hi <= v.len(),
            i <= locales.len(),
            ls == strs_view(locales@),
            lang == v@.subrange(lo as int, hi as int),
            forall|j: int| 0 <= j < i ==> !starts_with(#[trigger] ls[j], lang),
        decreases locales.len() - i,
    {
        let lv = chars_of(locales[i].as_str());
        assert(ls[i as int] == lv@);
        if starts_with_range(&lv, v, lo, hi) {
            proof {
                lemma_first_locale_match_at(ls, lang, i as int);
            }
            return Some(i);
        }
        i = i + 1;
    }
    proof {
        lemma_first_locale_match_at(ls, lang, i as int);
    }
    None
}

/// The parser's state between two lines.
struct EntryParser {
    entry: DesktopEntry,
    group: String,
    in_entry: bool,
    action_id: String,
    action_name: String,
    action_icon: Option<String>,
    action_exec: Option<String>,
    best_name: String,
    best_prio: u32,
}

impl EntryParser {
    spec fn state(&self) -> ParseState {
        ParseState {
            entry: self.entry.view_of(),
            group: self.group@,
            in_entry: self.in_entry,
            action_id: self.action_id@,
            action_name: self.action_name@,
            action_icon: opt_view(self.action_icon),
            action_exec: opt_view(self.action_exec),
            best_name: self.best_name@,
            best_prio: self.best_prio as int,
        }
    }
}

impl DesktopEntry {
    /// Sets the text or list field that the key `v[klo..khi]` names to the
    /// value `v[vlo..vhi]`; changes nothing where the key names none.
    fn set_text_key(&mut self, v: &Vec<char>, klo: usize, khi: usize, vlo: usize, vhi: usize) -> (handled: bool)
        requires
            klo <= khi <= v.len(),
            vlo <= vhi <= v.len(),
        ensures
            handled == is_text_key(v@.subrange(klo as int, khi as int)),
            handled ==> final(self).view_of() == apply_text_key(
                old(self).view_of(),
                v@.subrange(klo as int, khi as int),
                v@.subrange(vlo as int, vhi as int),
            ),
            !handled ==> *final(self) == *old(self),
    {
        if range_eq_str(v, klo, khi, "GenericName") {
            self.generic_name = Some(range_string(v, vlo, vhi));
        } else if range_eq_str(v, klo, khi, "Comment") {
            self.comment = Some(range_string(v, vlo, vhi));
        } else if range_eq_str(v, klo, khi, "Icon") {
            self.icon = Some(range_string(v, vlo, vhi));
        } else if range_eq_str(v, klo, khi, "Exec") {
            self.exec_line = Some(range_string(v, vlo, vhi));
        } else if range_eq_str(v, klo, khi, "TryExec") {
            self.try_exec = Some(range_string(v, vlo, vhi));
        } else if range_eq_str(v, klo, khi, "Path") {
            self.working_dir = Some(range_string(v, vlo, vhi));
        } else if range_eq_str(v, klo, khi, "StartupWMClass") {
            self.startup_wm_class = Some(range_string(v, vlo, vhi));
        } else if range_eq_str(v, klo, khi, "Categories") {
            self.categories = split_list_in(v, vlo, vhi);
        } else if range_eq_str(v, klo, khi, "MimeType") {
            self.mime_types = split_list_in(v, vlo, vhi);
        } else if range_eq_str(v, klo, khi, "OnlyShowIn") {
            self.only_show_in = split_list_in(v, vlo, vhi);
        } else if range_eq_str(v, klo, khi, "NotShowIn") {
            self.not_show_in = split_list_in(v, vlo, vhi);
        } else {
            return false;
        }
        true
    }

    /// Sets the boolean field that the key `v[klo..khi]` names from the
    /// value `v[vlo..vhi]`; changes nothing where the key names none.
    fn set_flag_key(&mut self, v: &Vec<char>, klo: usize, khi: usize, vlo: usize, vhi: usize) -> (handled: bool)
        requires
            klo <= khi <= v.len(),
            vlo <= vhi <= v.len(),
        ensures
            handled == is_flag_key(v@.subrange(klo as int, khi as int)),
            handled ==> final(self).view_of() == apply_flag_key(
                old(self).view_of(),
                v@.subrange(klo as int, khi as int),
                v@.subrange(vlo as int, vhi as int),
            ),
            !handled ==> *final(self) == *old(self),
    {
        let t = range_eq_str(v, vlo, vhi, "true");
        if range_eq_str(v, klo, khi, "Terminal") {
            self.terminal = t;
        } else if range_eq_str(v, klo, khi, "NoDisplay") {
            self.no_display = t;
        } else if range_eq_str(v, klo, khi, "Hidden") {
            self.hidden = t;
        } else if range_eq_str(v, klo, khi, "StartupNotify") {
            self.startup_notify = !range_eq_str(v, vlo, vhi, "false");
        } else if range_eq_str(v, klo, khi, "DBusActivatable") {
            self.dbus_activatable = t;
        } else if range_eq_str(v, klo, khi, "PrefersNonDefaultGPU") {
            self.prefers_non_default_gpu = t;
        } else if range_eq_str(v, klo, khi, "SingleMainWindow") {
            self.single_main_window = t;
        } else {
            return false;
        }
        true
    }
}

impl EntryParser {
    /// A key of the main group without a field of its own.
    fn other_key(&mut self, v: &Vec<char>, klo: usize, khi: usize, vlo: usize, vhi: usize, locales: &Vec<String>)
        requires
            klo <= khi <= v.len(),
            vlo <= vhi <= v.len(),
            locales@.len() <= 200,
        ensures
            final(self).state() == apply_other_key(
                old(self).state(),
                v@.subrange(klo as int, khi as int),
                v@.subrange(vlo as int, vhi as int),
                strs_view(locales@),
            ),
    {
        let ghost key = v@.subrange(klo as int, khi as int);
        let ghost value = v@.subrange(vlo as int, vhi as int);
        let ghost st0 = self.state();
        let w = chars_of("Name[");
        proof {
            reveal_strlit("Name[");
        }
        let is_named = khi - klo >= 6 && starts_with_lit(v, klo, khi, w.as_slice()) && v[khi - 1] == ']';
        proof {
            if khi - klo >= 6 {
                assert(key.take(5) =~= v@.subrange(klo as int, klo + 5));
                assert(key.last() == v@[khi - 1]);
            }
        }
        assert(is_named == (key.len() >= 6 && starts_with(key, "Name["@) && key.last() == ']'));
        if is_named {
            let ghost lang = key.subrange(5, key.len() - 1);
            assert(lang =~= v@.subrange(klo + 5, khi - 1));
            match locale_match(locales, v, klo + 5, khi - 1) {
                Some(i) => {
                    let prio: u32 = 200 - (i as u32);
                    if prio > self.best_prio {
                        self.best_name = range_string(v, vlo, vhi);
                        self.best_prio = prio;
                    }
                },
                None => {},
            }
        }
        let ghost st1 = self.state();
        let key_s = range_string(v, klo, khi);
        let val_s = range_string(v, vlo, vhi);
        assoc_set(&mut self.entry.raw, key_s, val_s);
        proof {
            assert(st1.entry == st0.entry);
            assert(self.state().entry == EntryView { raw: assoc_insert(st0.entry.raw, key, value), ..st0.entry });
        }
    }
}

impl EntryParser {
    /// A `key=value` line of the main group.
    #[verifier::rlimit(40)]
    fn main_key(&mut self, v: &Vec<char>, klo: usize, khi: usize, vlo: usize, vhi: usize, locales: &Vec<String>)
        requires
            klo <= khi <= v.len(),
            vlo <= vhi <= v.len(),
            locales@.len() <= 200,
        ensures
            final(self).state() == apply_main_key(
                old(self).state(),
                v@.subrange(klo as int, khi as int),
                v@.subrange(vlo as int, vhi as int),
                strs_view(locales@),
            ),
    {
        if range_eq_str(v, klo, khi, "Type") {
            let t = EntryType::parse_type(range_string(v, vlo, vhi).as_str());
            self.entry.entry_type = t;
        } else if range_eq_str(v, klo, khi, "Name") {
            self.entry.name = range_string(v, vlo, vhi);
            self.best_name = range_string(v, vlo, vhi);
            self.best_prio = 100;
        } else if self.entry.set_text_key(v, klo, khi, vlo, vhi) {
        } else if self.entry.set_flag_key(v, klo, khi, vlo, vhi) {
        } else {
            self.other_key(v, klo, khi, vlo, vhi, locales);
        }
    }

    /// A `key=value` line of a `[Desktop Action ...]` group.
    fn action_key(&mut self, v: &Vec<char>, klo: usize, khi: usize, vlo: usize, vhi: usize)
        requires
            klo <= khi <= v.len(),
            vlo <= vhi <= v.len(),
        ensures
            final(self).state() == apply_action_key(
                old(self).state(),
                v@.subrange(klo as int, khi as int),
                v@.subrange(vlo as int, vhi as int),
            ),
    {
        if range_eq_str(v, klo, khi, "Name") {
            self.action_name = range_string(v, vlo, vhi);
        } else if range_eq_str(v, klo, khi, "Icon") {
            self.action_icon = Some(range_string(v, vlo, vhi));
        } else if range_eq_str(v, klo, khi, "Exec") {
            self.action_exec = Some(range_string(v, vlo, vhi));
        }
    }

    /// The group header `[v[lo..hi]]`.
    fn header(&mut self, v: &Vec<char>, lo: usize, hi: usize)
        requires
            lo <= hi <= v.len(),
        ensures
            final(self).state() == apply_header(old(self).state(), v@.subrange(lo as int, hi as int)),
    {
        let ghost g = v@.subrange(lo as int, hi as int);
        let w = chars_of("Desktop Action ");
        if range_eq_str(v, lo, hi, "Desktop Entry") {
            self.in_entry = true;
            self.group = range_string(v, lo, hi);
        } else if starts_with_lit(v, lo, hi, w.as_slice()) {
            proof {
                assert(g.take(w@.len() as int) =~= v@.subrange(lo as int, lo + w@.len()));
                assert(g.skip(w@.len() as int) =~= v@.subrange(lo + w@.len(), hi as int));
            }
            self.in_entry = false;
            self.group = range_string(v, lo, hi);
            self.action_id = range_string(v, lo + w.len(), hi);
            self.action_name = range_string(v, lo + w.len(), hi);
            self.action_icon = None;
            self.action_exec = None;
        } else {
            proof {
                if w@.len() <= g.len() {
                    assert(g.take(w@.len() as int) =~= v@.subrange(lo as int, lo + w@.len()));
                }
            }
            self.in_entry = false;
            self.group = range_string(v, lo, hi);
        }
    }

    /// The line `v[lo..hi]`.
    fn line(&mut self, v: &Vec<char>, lo: usize, hi: usize, locales: &Vec<String>)
        requires
            lo <= hi <= v.len(),
            locales@.len() <= 200,
        ensures
            final(self).state() == apply_entry_line(
                old(self).state(),
                v@.subrange(lo as int, hi as int),
                strs_view(locales@),
            ),
    {
        let (a, b) = trim_bounds(v, lo, hi);
        let ghost l = v@.subrange(a as int, b as int);
        if a == b || v[a] == '#' {
            return;
        }
        if b - a >= 2 && v[a] == '[' && v[b - 1] == ']' {
            assert(l.subrange(1, l.len() - 1) =~= v@.subrange(a + 1, b - 1));
            self.header(v, a + 1, b - 1);
            return;
        }
        match find_char_in(v, a, b, '=') {
            Some(i) => {
                proof {
                    lemma_find_char_props(l, '=');
                    assert(l.take(i as int) =~= v@.subrange(a as int, a + i));
                    assert(l.skip(i + 1) =~= v@.subrange(a + i + 1, b as int));
                }
                let (ka, kb) = trim_bounds(v, a, a + i);
                let (va, vb) = trim_bounds(v, a + i + 1, b);
                if self.in_entry || self.group.as_str().is_empty() {
                    self.main_key(v, ka, kb, va, vb, locales);
                } else {
                    let g = chars_of(self.group.as_str());
                    let w = chars_of("Desktop Action ");
                    if starts_with_range(&g, &w, 0, w.len()) {
                        assert(w@.subrange(0, w@.len() as int) =~= w@);
                        self.action_key(v, ka, kb, va, vb);
                    } else {
                        assert(w@.subrange(0, w@.len() as int) =~= w@);
                    }
                }
            },
            None => {},
        }
    }
}

impl DesktopEntry {
    /// The fields of the entry whose text is `content`, read from `path`,
    /// for the language setting `lang`, before any check of the result.
    pub fn parse_fields(content: &str, path: &str, lang: Option<&str>) -> (e: DesktopEntry)
        ensures
            e.view_of() == parsed_entry(content@, path@, opt_str_view(lang)),
    {
        let locales = user_locales(lang);
        let v = chars_of(content);
        let entry = DesktopEntry {
            path: path.to_owned(),
            name: String::new(),
            generic_name: None,
            comment: None,
            icon: None,
            exec_line: None,
            try_exec: None,
            working_dir: None,
            entry_type: EntryType::Application,
            categories: Vec::new(),
            mime_types: Vec::new(),
            terminal: false,
            no_display: false,
            hidden: false,
            startup_wm_class: None,
            startup_notify: true,
            only_show_in: Vec::new(),
            not_show_in: Vec::new(),
            dbus_activatable: false,
            prefers_non_default_gpu: false,
            single_main_window: false,
            actions: Vec::new(),
            raw: Vec::new(),
            locale_name: String::new(),
        };
        let mut p = EntryParser {
            entry,
            group: String::new(),
            in_entry: false,
            action_id: String::new(),
            action_name: String::new(),
            action_icon: None,
            action_exec: None,
            best_name: String::new(),
            best_prio: 0,
        };
        proof {
            assert(p.state().entry.categories =~= Seq::<Seq<char>>::empty());
            assert(p.state().entry.mime_types =~= Seq::<Seq<char>>::empty());
            assert(p.state().entry.only_show_in =~= Seq::<Seq<char>>::empty());
            assert(p.state().entry.not_show_in =~= Seq::<Seq<char>>::empty());
            assert(p.state().entry.actions =~= Seq::<ActionView>::empty());
            assert(p.state().entry.raw =~= Seq::<(Seq<char>, Seq<char>)>::empty());
            assert(p.state() == initial_state(path@));
        }
        let ghost ls = strs_view(locales@);
        let mut pos: usize = 0;
        let mut done = false;
        assert(v@.subrange(0, v@.len() as int) =~= v@);
        while !done
            invariant
                pos <= v.len(),
                v@ == content@,
                ls == strs_view(locales@),
                locales@.len() <= 4,
                !done ==> apply_entry_text(initial_state(path@), v@, ls) == apply_entry_text(
                    p.state(),
                    v@.subrange(pos as int, v@.len() as int),
                    ls,
                ),
                done ==> p.state() == apply_entry_text(initial_state(path@), v@, ls),
            decreases (if done { 0 } else { v.len() - pos + 1 }),
        {
            let ghost rest = v@.subrange(pos as int, v@.len() as int);
            match find_char_in(&v, pos, v.len(), '\n') {
                Some(i) => {
                    proof {
                        lemma_find_char_props(rest, '\n');
                        assert(rest.take(i as int) =~= v@.subrange(pos as int, pos + i));
                        assert(rest.skip(i + 1) =~= v@.subrange(pos + i + 1, v@.len() as int));
                    }
                    p.line(&v, pos, pos + i, &locales);
                    pos = pos + i + 1;
                },
                None => {
                    p.line(&v, pos, v.len(), &locales);
                    done = true;
                },
            }
        }
        let ghost last = p.state();
        let mut entry = p.entry;
        if !p.best_name.as_str().is_empty() {
            entry.locale_name = p.best_name;
        }
        if !p.action_id.as_str().is_empty() {
            let action = DesktopAction {
                id: p.action_id,
                name: p.action_name,
                icon: p.action_icon,
                exec_line: p.action_exec,
            };
            let ghost before = entry.actions@;
            entry.actions.push(action);
            assert(entry.actions@.map_values(|a: DesktopAction| a.view_of()) =~= before.map_values(
                |a: DesktopAction| a.view_of(),
            ).push(action.view_of()));
        }
        assert(entry.view_of() == finish_entry(last));
        entry
    }

    /// Whether the entry is kept, given whether its `TryExec` program was
    /// found: it is kept when it is listed and it has no `TryExec` key or
    /// the program was found.
    pub fn accept(self, try_exec_found: bool) -> (r: Option<DesktopEntry>)
        ensures
            r is Some <==> is_listed(self.view_of()) && (self.try_exec is None || try_exec_found),
            r matches Some(e) ==> e == self,
    {
        if self.name.as_str().is_empty() || self.entry_type != EntryType::Application {
            return None;
        }
        if self.try_exec.is_some() && !try_exec_found {
            return None;
        }
        if self.hidden || self.no_display {
            return None;
        }
        Some(self)
    }

    /// The paths probed for the `TryExec` program `binary`, in order:
    /// `dir/binary` for each directory `dir` of the search path
    /// `search_path` (the value of `PATH`, where it is set), then `binary`
    /// itself.
    pub fn try_exec_candidates(binary: &str, search_path: Option<&str>) -> (r: Vec<String>)
        ensures
            strs_view(r@) == executable_candidates_spec(binary@, search_path).push(binary@),
    {
        let mut r = executable_candidates(binary, search_path);
        let ghost head = strs_view(r@);
        r.push(binary.to_owned());
        assert(strs_view(r@) =~= head.push(binary@));
        r
    }

    /// Whether one of `try_exec_candidates(binary, search_path)` is a
    /// file, probed in order. What is a file depends on the disk: the
    /// answer is whether the answers of the probes hold a true one.
    fn find_in_path(binary: &str, search_path: Option<&str>) -> (b: bool)
        ensures
            exists|answers: Seq<bool>|
                answers.len() <= executable_candidates_spec(binary@, search_path).len() + 1 && b == (
                first_true(answers) is Some),
    {
        let cands = DesktopEntry::try_exec_candidates(binary, search_path);
        let answers = probe_in_order(&cands, true);
        let found = first_existing(&answers);
        assert(strs_view(cands@).len() == cands@.len());
        assert(found is Some <==> first_true(answers@) is Some);
        assert(answers@.len() <= executable_candidates_spec(binary@, search_path).len() + 1);
        found.is_some()
    }

    /// Parses the text of a desktop entry read from `path`, for the
    /// language setting `lang` (the value of `LANG`) and the program search
    /// path `search_path` (the value of `PATH`), where they are set.
    ///
    /// The entry is returned when it is listed (see `is_listed`) and, if it
    /// has a `TryExec` key, the program it names is found on disk.
    pub fn parse_str(content: &str, path: &str, lang: Option<&str>, search_path: Option<&str>) -> (r: Option<DesktopEntry>)
        ensures
            ({
                let e = parsed_entry(content@, path@, opt_str_view(lang));
                &&& r matches Some(d) ==> d.view_of() == e && is_listed(e)
                &&& is_listed(e) && e.try_exec is None ==> r is Some
                &&& !is_listed(e) ==> r is None
            }),
    {
        let entry = DesktopEntry::parse_fields(content, path, lang);
        let found = if entry.name.as_str().is_empty() || entry.entry_type != EntryType::Application {
            false
        } else {
            match &entry.try_exec {
                Some(t) => DesktopEntry::find_in_path(t.as_str(), search_path),
                None => false,
            }
        };
        entry.accept(found)
    }
}

/// `s` with every `%c` removed, matches taken left to right without
/// overlap (`str::replace` with an empty replacement).
pub open spec fn remove_code(s: Seq<char>, c: char) -> Seq<char>
    decreases s.len(),
{
    if s.len() == 0 {
        s
    } else if s.len() >= 2 && s[0] == '%' && s[1] == c {
        remove_code(s.skip(2), c)
    } else {
        seq![s[0]] + remove_code(s.drop_first(), c)
    }
}

/// The field codes of an `Exec` line that launching removes, in the order
/// they are removed.
pub open spec fn field_codes() -> Seq<char> {
    seq!['f', 'F', 'u', 'U', 'd', 'D', 'n', 'N', 'i', 'c', 'k', 'v', 'm']
}

/// `s` with the field codes `%c`, for each `c` of `codes`, removed in turn.
pub open spec fn remove_codes(s: Seq<char>, codes: Seq<char>) -> Seq<char>
    decreases codes.len(),
{
    if codes.len() == 0 {
        s
    } else {
        remove_codes(remove_code(s, codes[0]), codes.drop_first())
    }
}

/// Index of the first white-space character of `s`, if any.
pub open spec fn find_ws(s: Seq<char>) -> Option<int>
    decreases s.len(),
{
    if s.len() == 0 {
        None
    } else if is_ws(s[0]) {
        Some(0)
    } else {
        match find_ws(s.drop_first()) {
            Some(i) => Some(i + 1),
            None => None,
        }
    }
}

pub proof fn lemma_find_ws_props(s: Seq<char>)
    ensures
        match find_ws(s) {
            Some(i) => 0 <= i < s.len() && is_ws(s[i]) && forall|j: int| 0 <= j < i ==> !is_ws(s[j]),
            None => forall|j: int| 0 <= j < s.len() ==> !is_ws(s[j]),
        },
    decreases s.len(),
{
    if s.len() > 0 {
        lemma_find_ws_props(s.drop_first());
        if !is_ws(s[0]) {
            assert forall|j: int| 0 < j < s.len() implies s[j] == s.drop_first()[j - 1] by {}
        }
    }
}

proof fn lemma_find_ws_at(s: Seq<char>, i: int)
    requires
        0 <= i <= s.len(),
        forall|j: int| 0 <= j < i ==> !is_ws(#[trigger] s[j]),
        i == s.len() || is_ws(s[i]),
    ensures
        find_ws(s) == (if i == s.len() { None::<int> } else { Some(i) }),
    decreases i,
{
    if i > 0 {
        let t = s.drop_first();
        assert forall|j: int| 0 <= j < i - 1 implies !is_ws(#[trigger] t[j]) by {
            assert(t[j] == s[j + 1]);
        }
        lemma_find_ws_at(t, i - 1);
    }
}

/// The words of `s`: its maximal runs of characters other than white space
/// (`str::split_whitespace`).
pub open spec fn words(s: Seq<char>) -> Seq<Seq<char>>
    decreases s.len(),
{
    match find_ws(s) {
        Some(i) => {
            proof {
                lemma_find_ws_props(s);
            }
            let rest = words(s.skip(i + 1));
            if i == 0 {
                rest
            } else {
                seq![s.take(i)] + rest
            }
        },
        None => if s.len() == 0 {
            Seq::empty()
        } else {
            seq![s]
        },
    }
}

/// The words of `w` joined by single spaces.
pub open spec fn join_words(w: Seq<Seq<char>>) -> Seq<char>
    decreases w.len(),
{
    if w.len() == 0 {
        Seq::empty()
    } else if w.len() == 1 {
        w[0]
    } else {
        w[0] + seq![' '] + join_words(w.drop_first())
    }
}

/// The command line of an `Exec` value: field codes removed and runs of
/// white space collapsed to single spaces, with none at either end.
pub open spec fn substituted(exec: Seq<char>) -> Seq<char> {
    join_words(words(remove_codes(exec, field_codes())))
}

/// The entry is shown in the desktop environment `desktop` (see
/// `DesktopEntry::should_show_in`).
pub open spec fn shown_in_spec(e: EntryView, desktop: Seq<char>) -> bool {
    (e.only_show_in.len() == 0 || lists_desktop(e.only_show_in, desktop)) && !lists_desktop(
        e.not_show_in,
        desktop,
    )
}

/// Some item of `list` equals `d`, ignoring ASCII case.
pub open spec fn lists_desktop(list: Seq<Seq<char>>, d: Seq<char>) -> bool {
    exists|i: int| 0 <= i < list.len() && ascii_lower_seq(#[trigger] list[i]) == ascii_lower_seq(d)
}

/// `v` with every `%c` removed.
fn remove_code_in(v: &Vec<char>, c: char) -> (r: Vec<char>)
    ensures
        r@ == remove_code(v@, c),
{
    let mut out: Vec<char> = Vec::new();
    let mut i: usize = 0;
    assert(v@.skip(0) =~= v@);
    assert(out@ + remove_code(v@, c) =~= remove_code(v@, c));
    while i < v.len()
        invariant
            i <= v.len(),
            remove_code(v@, c) == out@ + remove_code(v@.skip(i as int), c),
        decreases v.len() - i,
    {
        let ghost rest = v@.skip(i as int);
        if i + 1 < v.len() && v[i] == '%' && v[i + 1] == c {
            assert(rest.skip(2) =~= v@.skip(i + 2));
            i = i + 2;
        } else {
            assert(rest.drop_first() =~= v@.skip(i + 1));
            let ghost before = out@;
            out.push(v[i]);
            assert(before + (seq![rest[0]] + remove_code(rest.drop_first(), c)) =~= out@
                + remove_code(v@.skip(i + 1), c));
            i = i + 1;
        }
    }
    assert(v@.skip(i as int) =~= Seq::<char>::empty());
    assert(out@ + Seq::<char>::empty() =~= out@);
    out
}

/// The words of `v` (its maximal runs of characters other than white
/// space), in order.
pub fn words_in(v: &Vec<char>) -> (ws: Vec<Vec<char>>)
    ensures
        ws@.map_values(|w: Vec<char>| w@) == words(v@),
{
    let mut ws: Vec<Vec<char>> = Vec::new();
    let mut pos: usize = 0;
    let mut done = false;
    let ghost whole = v@;
    assert(v@.skip(0) =~= v@);
    while !done
        invariant
            pos <= v.len(),
            whole == v@,
            !done ==> words(whole) == ws@.map_values(|w: Vec<char>| w@) + words(v@.skip(pos as int)),
            done ==> words(whole) == ws@.map_values(|w: Vec<char>| w@),
        decreases (if done { 0 } else { v.len() - pos + 1 }),
    {
        let ghost rest = v@.skip(pos as int);
        let ghost before = ws@.map_values(|w: Vec<char>| w@);
        let mut i: usize = pos;
        while i < v.len() && !char_is_ws(v[i])
            invariant
                pos <= i <= v.len(),
                rest == v@.skip(pos as int),
                forall|j: int| 0 <= j < i - pos ==> !is_ws(#[trigger] rest[j]),
            decreases v.len() - i,
        {
            i = i + 1;
        }
        proof {
            lemma_find_ws_at(rest, i - pos);
        }
        if i < v.len() {
            proof {
                assert(rest.skip(i - pos + 1) =~= v@.skip(i + 1));
            }
            if i > pos {
                let mut w: Vec<char> = Vec::new();
                let mut k = pos;
                while k < i
                    invariant
                        pos <= k <= i <= v.len(),
                        w@ == v@.subrange(pos as int, k as int),
                    decreases i - k,
                {
                    w.push(v[k]);
                    k = k + 1;
                    assert(w@ =~= v@.subrange(pos as int, k as int));
                }
                assert(rest.take(i - pos) =~= w@);
                ws.push(w);
                assert(ws@.map_values(|w: Vec<char>| w@) =~= before.push(rest.take(i - pos)));
                assert(before + (seq![rest.take(i - pos)] + words(rest.skip(i - pos + 1)))
                    =~= before.push(rest.take(i - pos)) + words(v@.skip(i + 1)));
            }
            pos = i + 1;
        } else {
            if i > pos {
                let mut w: Vec<char> = Vec::new();
                let mut k = pos;
                while k < i
                    invariant
                        pos <= k <= i <= v.len(),
                        w@ == v@.subrange(pos as int, k as int),
                    decreases i - k,
                {
                    w.push(v[k]);
                    k = k + 1;
                    assert(w@ =~= v@.subrange(pos as int, k as int));
                }
                assert(rest =~= w@);
                ws.push(w);
                assert(ws@.map_values(|w: Vec<char>| w@) =~= before.push(rest));
                assert(before + seq![rest] =~= before.push(rest));
            } else {
                assert(rest.len() == 0);
                assert(before + Seq::<Seq<char>>::empty() =~= before);
            }
            done = true;
        }
    }
    ws
}

/// The words of `v` joined with single spaces.
fn join_words_of(v: &Vec<char>) -> (r: Vec<char>)
    ensures
        r@ == join_words(words(v@)),
{
    let ws = words_in(v);
    let ghost wv = ws@.map_values(|w: Vec<char>| w@);
    let mut out: Vec<char> = Vec::new();
    let mut n: usize = 0;
    assert(wv.take(0) =~= Seq::<Seq<char>>::empty());
    while n < ws.len()
        invariant
            n <= ws.len(),
            wv == ws@.map_values(|w: Vec<char>| w@),
            out@ == join_words(wv.take(n as int)),
        decreases ws.len() - n,
    {
        let ghost before = out@;
        if n > 0 {
            out.push(' ');
        }
        let ghost mid = out@;
        let w = &ws[n];
        let mut k: usize = 0;
        while k < w.len()
            invariant
                k <= w.len(),
                out@ == mid + w@.take(k as int),
            decreases w.len() - k,
        {
            out.push(w[k]);
            k = k + 1;
            assert(out@ =~= mid + w@.take(k as int));
        }
        proof {
            assert(w@.take(w@.len() as int) =~= w@);
            assert(wv[n as int] == w@);
            assert(wv.take(n + 1) =~= wv.take(n as int).push(wv[n as int]));
            if n > 0 {
                lemma_join_push(wv.take(n as int), wv[n as int]);
            } else {
                assert(wv.take(1) =~= seq![wv[0]]);
                assert(out@ =~= w@);
            }
        }
        n = n + 1;
    }
    assert(wv.take(ws@.len() as int) =~= wv);
    out
}

proof fn lemma_join_push(w: Seq<Seq<char>>, x: Seq<char>)
    requires
        w.len() >= 1,
    ensures
        join_words(w.push(x)) == join_words(w) + seq![' '] + x,
    decreases w.len(),
{
    assert(w.push(x)[0] == w[0]);
    if w.len() == 1 {
        assert(w.push(x).drop_first() =~= seq![x]);
        assert(join_words(seq![x]) == x);
    } else {
        assert(w.push(x).drop_first() =~= w.drop_first().push(x));
        lemma_join_push(w.drop_first(), x);
        assert(w[0] + seq![' '] + (join_words(w.drop_first()) + seq![' '] + x) =~= (w[0] + seq![' ']
            + join_words(w.drop_first())) + seq![' '] + x);
    }
}

impl DesktopEntry {
    /// The command line of an `Exec` value: the field codes `%f %F %u %U
    /// %d %D %n %N %i %c %k %v %m` removed, then runs of white space
    /// collapsed to single spaces, with none at either end.
    pub fn substitute_fields(exec: &str) -> (r: String)
        ensures
            r@ == substituted(exec@),
    {
        let codes: [char; 13] = ['f', 'F', 'u', 'U', 'd', 'D', 'n', 'N', 'i', 'c', 'k', 'v', 'm'];
        assert(codes@ == field_codes());
        let mut v = chars_of(exec);
        let mut n: usize = 0;
        assert(codes@.skip(0) =~= codes@);
        while n < 13
            invariant
                n <= 13,
                codes@ == field_codes(),
                remove_codes(exec@, field_codes()) == remove_codes(v@, codes@.skip(n as int)),
            decreases 13 - n,
        {
            proof {
                assert(codes@.skip(n as int).drop_first() =~= codes@.skip(n + 1));
            }
            v = remove_code_in(&v, codes[n]);
            n = n + 1;
        }
        let out = join_words_of(&v);
        string_of(&out, 0, out.len())
    }

    /// The command to launch: the `Exec` value with its field codes
    /// removed, where the entry has one.
    pub fn exec_command(&self) -> (r: Option<String>)
        ensures
            opt_view(r) == match self.exec_line {
                Some(e) => Some(substituted(e@)),
                None => None::<Seq<char>>,
            },
    {
        match &self.exec_line {
            Some(e) => Some(DesktopEntry::substitute_fields(e.as_str())),
            None => None,
        }
    }

    /// Whether the entry is shown in the desktop environment `desktop`: it
    /// is listed in `OnlyShowIn` where that list is not empty, and is not
    /// listed in `NotShowIn`, names compared ignoring ASCII case.
    pub fn should_show_in(&self, desktop: &str) -> (b: bool)
        ensures
            b == ((self.only_show_in@.len() == 0 || lists_desktop(strs_view(self.only_show_in@), desktop@))
                && !lists_desktop(strs_view(self.not_show_in@), desktop@)),
    {
        if self.only_show_in.len() > 0 && !lists_in(&self.only_show_in, desktop) {
            return false;
        }
        !lists_in(&self.not_show_in, desktop)
    }
}

/// Some item of `list` equals `d`, ignoring ASCII case.
fn lists_in(list: &Vec<String>, d: &str) -> (b: bool)
    ensures
        b == lists_desktop(strs_view(list@), d@),
{
    let ghost l = strs_view(list@);
    let mut i: usize = 0;
    while i < list.len()
        invariant
            i <= list.len(),
            l == strs_view(list@),
            forall|j: int| 0 <= j < i ==> ascii_lower_seq(#[trigger] l[j]) != ascii_lower_seq(d@),
        decreases list.len() - i,
    {
        if eq_ignore_ascii_case(list[i].as_str(), d) {
            assert(ascii_lower_seq(l[i as int]) == ascii_lower_seq(d@));
            return true;
        }
        i = i + 1;
    }
    false
}

/// The terminal program to run entries in: `terminal` where given, else
/// `x-terminal-emulator`.
pub open spec fn terminal_of(terminal: Option<&str>) -> Seq<char> {
    match terminal {
        Some(t) => t@,
        None => "x-terminal-emulator"@,
    }
}

/// The command line that launches an entry, where it has one (see
/// `DesktopEntry::launch_command`).
pub open spec fn launch_command_of(e: EntryView, terminal: Option<&str>) -> Option<Seq<char>> {
    match e.exec_line {
        Some(x) => Some(
            if e.terminal {
                terminal_of(terminal) + " -e "@ + substituted(x)
            } else {
                substituted(x)
            },
        ),
        None => None,
    }
}

/// A copy of a list of strings.
pub fn copy_strings(v: &Vec<String>) -> (r: Vec<String>)
    ensures
        r@ == v@,
{
    let mut r: Vec<String> = Vec::new();
    let mut i: usize = 0;
    while i < v.len()
        invariant
            i <= v.len(),
            r@ == v@.take(i as int),
        decreases v.len() - i,
    {
        r.push(v[i].clone());
        i = i + 1;
        assert(r@ =~= v@.take(i as int));
    }
    assert(v@.take(i as int) =~= v@);
    r
}

fn copy_opt(o: &Option<String>) -> (r: Option<String>)
    ensures
        r == *o,
{
    match o {
        Some(s) => Some(s.clone()),
        None => None,
    }
}

impl DesktopAction {
    /// A copy of the action.
    pub fn duplicate(&self) -> (a: DesktopAction)
        ensures
            a == *self,
    {
        DesktopAction {
            id: self.id.clone(),
            name: self.name.clone(),
            icon: copy_opt(&self.icon),
            exec_line: copy_opt(&self.exec_line),
        }
    }
}

impl DesktopEntry {
    /// A copy of the entry.
    pub fn duplicate(&self) -> (e: DesktopEntry)
        ensures
            e.view_of() == self.view_of(),
    {
        let mut actions: Vec<DesktopAction> = Vec::new();
        let mut i: usize = 0;
        while i < self.actions.len()
            invariant
                i <= self.actions.len(),
                actions@ == self.actions@.take(i as int),
            decreases self.actions.len() - i,
        {
            actions.push(self.actions[i].duplicate());
            i = i + 1;
            assert(actions@ =~= self.actions@.take(i as int));
        }
        assert(self.actions@.take(i as int) =~= self.actions@);
        let mut raw: Vec<(String, String)> = Vec::new();
        let mut j: usize = 0;
        while j < self.raw.len()
            invariant
                j <= self.raw.len(),
                raw@ == self.raw@.take(j as int),
            decreases self.raw.len() - j,
        {
            raw.push((self.raw[j].0.clone(), self.raw[j].1.clone()));
            j = j + 1;
            assert(raw@ =~= self.raw@.take(j as int));
        }
        assert(self.raw@.take(j as int) =~= self.raw@);
        DesktopEntry {
            path: self.path.clone(),
            name: self.name.clone(),
            generic_name: copy_opt(&self.generic_name),
            comment: copy_opt(&self.comment),
            icon: copy_opt(&self.icon),
            exec_line: copy_opt(&self.exec_line),
            try_exec: copy_opt(&self.try_exec),
            working_dir: copy_opt(&self.working_dir),
            entry_type: self.entry_type,
            categories: copy_strings(&self.categories),
            mime_types: copy_strings(&self.mime_types),
            terminal: self.terminal,
            no_display: self.no_display,
            hidden: self.hidden,
            startup_wm_class: copy_opt(&self.startup_wm_class),
            startup_notify: self.startup_notify,
            only_show_in: copy_strings(&self.only_show_in),
            not_show_in: copy_strings(&self.not_show_in),
            dbus_activatable: self.dbus_activatable,
            prefers_non_default_gpu: self.prefers_non_default_gpu,
            single_main_window: self.single_main_window,
            actions,
            raw,
            locale_name: self.locale_name.clone(),
        }
    }

    /// The command line that launches the entry, where it has one: in a
    /// terminal (`terminal`, else `x-terminal-emulator`, run with `-e`)
    /// where the entry asks for one.
    pub fn launch_command(&self, terminal: Option<&str>) -> (r: Option<String>)
        ensures
            opt_view(r) == launch_command_of(self.view_of(), terminal),
    {
        match self.exec_command() {
            Some(cmd) => {
                if self.terminal {
                    let term = match terminal {
                        Some(t) => t,
                        None => "x-terminal-emulator",
                    };
                    let mut full = term.to_owned();
                    full.append(" -e ");
                    full.append(cmd.as_str());
                    Some(full)
                } else {
                    Some(cmd)
                }
            },
            None => None,
        }
    }
}


/// A text key of the main group sets the field of the same name and no
/// other: `Icon=v` makes the icon `v` and leaves the comment, the command
/// and every other field as they were; list keys (`Categories`,
/// `MimeType`, `OnlyShowIn`, `NotShowIn`) set their list from the
/// `;`-separated value.
pub proof fn lemma_text_key_sets_its_field(e: EntryView, key: Seq<char>, value: Seq<char>)
    requires
        is_text_key(key),
    ensures
        ({
            let r = apply_text_key(e, key, value);
            &&& r.generic_name == (if key == "GenericName"@ { Some(value) } else { e.generic_name })
            &&& r.comment == (if key == "Comment"@ { Some(value) } else { e.comment })
            &&& r.icon == (if key == "Icon"@ { Some(value) } else { e.icon })
            &&& r.exec_line == (if key == "Exec"@ { Some(value) } else { e.exec_line })
            &&& r.try_exec == (if key == "TryExec"@ { Some(value) } else { e.try_exec })
            &&& r.working_dir == (if key == "Path"@ { Some(value) } else { e.working_dir })
            &&& r.startup_wm_class == (if key == "StartupWMClass"@ { Some(value) } else { e.startup_wm_class })
            &&& r.categories == (if key == "Categories"@ { split_list(value) } else { e.categories })
            &&& r.mime_types == (if key == "MimeType"@ { split_list(value) } else { e.mime_types })
            &&& r.only_show_in == (if key == "OnlyShowIn"@ { split_list(value) } else { e.only_show_in })
            &&& r.not_show_in == (if key == "NotShowIn"@ { split_list(value) } else { e.not_show_in })
            &&& r.path == e.path && r.name == e.name && r.entry_type == e.entry_type
            &&& r.terminal == e.terminal && r.no_display == e.no_display && r.hidden == e.hidden
            &&& r.startup_notify == e.startup_notify && r.dbus_activatable == e.dbus_activatable
            &&& r.prefers_non_default_gpu == e.prefers_non_default_gpu
            &&& r.single_main_window == e.single_main_window
            &&& r.actions == e.actions && r.raw == e.raw && r.locale_name == e.locale_name
        }),
{
    reveal_strlit("GenericName");
    reveal_strlit("Comment");
    reveal_strlit("Icon");
    reveal_strlit("Exec");
    reveal_strlit("TryExec");
    reveal_strlit("Path");
    reveal_strlit("StartupWMClass");
    reveal_strlit("Categories");
    reveal_strlit("MimeType");
    reveal_strlit("OnlyShowIn");
    reveal_strlit("NotShowIn");
    assert("GenericName"@.len() != "Comment"@.len());
    assert("GenericName"@.len() != "Icon"@.len());
    assert("GenericName"@.len() != "Exec"@.len());
    assert("GenericName"@.len() != "TryExec"@.len());
    assert("GenericName"@.len() != "Path"@.len());
    assert("GenericName"@.len() != "StartupWMClass"@.len());
    assert("GenericName"@.len() != "Categories"@.len());
    assert("GenericName"@.len() != "MimeType"@.len());
    assert("GenericName"@.len() != "OnlyShowIn"@.len());
    assert("GenericName"@.len() != "NotShowIn"@.len());
    assert("Comment"@.len() != "Icon"@.len());
    assert("Comment"@.len() != "Exec"@.len());
    assert("Comment"@[0] != "TryExec"@[0]);
    assert("Comment"@.len() != "Path"@.len());
    assert("Comment"@.len() != "StartupWMClass"@.len());
    assert("Comment"@.len() != "Categories"@.len());
    assert("Comment"@.len() != "MimeType"@.len());
    assert("Comment"@.len() != "OnlyShowIn"@.len());
    assert("Comment"@.len() != "NotShowIn"@.len());
    assert("Icon"@[0] != "Exec"@[0]);
    assert("Icon"@.len() != "TryExec"@.len());
    assert("Icon"@[0] != "Path"@[0]);
    assert("Icon"@.len() != "StartupWMClass"@.len());
    assert("Icon"@.len() != "Categories"@.len());
    assert("Icon"@.len() != "MimeType"@.len());
    assert("Icon"@.len() != "OnlyShowIn"@.len());
    assert("Icon"@.len() != "NotShowIn"@.len());
    assert("Exec"@.len() != "TryExec"@.len());
    assert("Exec"@[0] != "Path"@[0]);
    assert("Exec"@.len() != "StartupWMClass"@.len());
    assert("Exec"@.len() != "Categories"@.len());
    assert("Exec"@.len() != "MimeType"@.len());
    assert("Exec"@.len() != "OnlyShowIn"@.len());
    assert("Exec"@.len() != "NotShowIn"@.len());
    assert("TryExec"@.len() != "Path"@.len());
    assert("TryExec"@.len() != "StartupWMClass"@.len());
    assert("TryExec"@.len() != "Categories"@.len());
    assert("TryExec"@.len() != "MimeType"@.len());
    assert("TryExec"@.len() != "OnlyShowIn"@.len());
    assert("TryExec"@.len() != "NotShowIn"@.len());
    assert("Path"@.len() != "StartupWMClass"@.len());
    assert("Path"@.len() != "Categories"@.len());
    assert("Path"@.len() != "MimeType"@.len());
    assert("Path"@.len() != "OnlyShowIn"@.len());
    assert("Path"@.len() != "NotShowIn"@.len());
    assert("StartupWMClass"@.len() != "Categories"@.len());
    assert("StartupWMClass"@.len() != "MimeType"@.len());
    assert("StartupWMClass"@.len() != "OnlyShowIn"@.len());
    assert("StartupWMClass"@.len() != "NotShowIn"@.len());
    assert("Categories"@.len() != "MimeType"@.len());
    assert("Categories"@[0] != "OnlyShowIn"@[0]);
    assert("Categories"@.len() != "NotShowIn"@.len());
    assert("MimeType"@.len() != "OnlyShowIn"@.len());
    assert("MimeType"@.len() != "NotShowIn"@.len());
    assert("OnlyShowIn"@.len() != "NotShowIn"@.len());
}

/// A boolean key of the main group sets the flag of the same name and no
/// other: `true` sets it and anything else clears it, except
/// `StartupNotify`, which only `false` clears.
pub proof fn lemma_flag_key_sets_its_flag(e: EntryView, key: Seq<char>, value: Seq<char>)
    requires
        is_flag_key(key),
    ensures
        ({
            let r = apply_flag_key(e, key, value);
            &&& r.terminal == (if key == "Terminal"@ { value == "true"@ } else { e.terminal })
            &&& r.no_display == (if key == "NoDisplay"@ { value == "true"@ } else { e.no_display })
            &&& r.hidden == (if key == "Hidden"@ { value == "true"@ } else { e.hidden })
            &&& r.startup_notify == (if key == "StartupNotify"@ { value != "false"@ } else { e.startup_notify })
            &&& r.dbus_activatable == (if key == "DBusActivatable"@ { value == "true"@ } else { e.dbus_activatable })
            &&& r.prefers_non_default_gpu == (if key == "PrefersNonDefaultGPU"@ { value == "true"@ } else {
                e.prefers_non_default_gpu
            })
            &&& r.single_main_window == (if key == "SingleMainWindow"@ { value == "true"@ } else {
                e.single_main_window
            })
            &&& r.path == e.path && r.name == e.name && r.entry_type == e.entry_type
            &&& r.generic_name == e.generic_name && r.comment == e.comment && r.icon == e.icon
            &&& r.exec_line == e.exec_line && r.try_exec == e.try_exec && r.working_dir == e.working_dir
            &&& r.categories == e.categories && r.mime_types == e.mime_types
            &&& r.startup_wm_class == e.startup_wm_class
            &&& r.only_show_in == e.only_show_in && r.not_show_in == e.not_show_in
            &&& r.actions == e.actions && r.raw == e.raw && r.locale_name == e.locale_name
        }),
{
    reveal_strlit("Terminal");
    reveal_strlit("NoDisplay");
    reveal_strlit("Hidden");
    reveal_strlit("StartupNotify");
    reveal_strlit("DBusActivatable");
    reveal_strlit("PrefersNonDefaultGPU");
    reveal_strlit("SingleMainWindow");
    assert("Terminal"@.len() != "NoDisplay"@.len());
    assert("Terminal"@.len() != "Hidden"@.len());
    assert("Terminal"@.len() != "StartupNotify"@.len());
    assert("Terminal"@.len() != "DBusActivatable"@.len());
    assert("Terminal"@.len() != "PrefersNonDefaultGPU"@.len());
    assert("Terminal"@.len() != "SingleMainWindow"@.len());
    assert("NoDisplay"@.len() != "Hidden"@.len());
    assert("NoDisplay"@.len() != "StartupNotify"@.len());
    assert("NoDisplay"@.len() != "DBusActivatable"@.len());
    assert("NoDisplay"@.len() != "PrefersNonDefaultGPU"@.len());
    assert("NoDisplay"@.len() != "SingleMainWindow"@.len());
    assert("Hidden"@.len() != "StartupNotify"@.len());
    assert("Hidden"@.len() != "DBusActivatable"@.len());
    assert("Hidden"@.len() != "PrefersNonDefaultGPU"@.len());
    assert("Hidden"@.len() != "SingleMainWindow"@.len());
    assert("StartupNotify"@.len() != "DBusActivatable"@.len());
    assert("StartupNotify"@.len() != "PrefersNonDefaultGPU"@.len());
    assert("StartupNotify"@.len() != "SingleMainWindow"@.len());
    assert("DBusActivatable"@.len() != "PrefersNonDefaultGPU"@.len());
    assert("DBusActivatable"@.len() != "SingleMainWindow"@.len());
    assert("PrefersNonDefaultGPU"@.len() != "SingleMainWindow"@.len());
}


/// A main-group line with a text or boolean key changes the entry as that
/// key says (see `lemma_text_key_sets_its_field` and
/// `lemma_flag_key_sets_its_flag`) and nothing else of the reading.
pub proof fn lemma_main_key_routes(st: ParseState, key: Seq<char>, value: Seq<char>, locales: Seq<Seq<char>>)
    ensures
        is_text_key(key) ==> apply_main_key(st, key, value, locales) == (ParseState {
            entry: apply_text_key(st.entry, key, value),
            ..st
        }),
        is_flag_key(key) ==> apply_main_key(st, key, value, locales) == (ParseState {
            entry: apply_flag_key(st.entry, key, value),
            ..st
        }),
{
    reveal_strlit("Type");
    reveal_strlit("Name");
    reveal_strlit("GenericName");
    reveal_strlit("Comment");
    reveal_strlit("Icon");
    reveal_strlit("Exec");
    reveal_strlit("TryExec");
    reveal_strlit("Path");
    reveal_strlit("StartupWMClass");
    reveal_strlit("Categories");
    reveal_strlit("MimeType");
    reveal_strlit("OnlyShowIn");
    reveal_strlit("NotShowIn");
    reveal_strlit("Terminal");
    reveal_strlit("NoDisplay");
    reveal_strlit("Hidden");
    reveal_strlit("StartupNotify");
    reveal_strlit("DBusActivatable");
    reveal_strlit("PrefersNonDefaultGPU");
    reveal_strlit("SingleMainWindow");
    assert("Type"@.len() != "GenericName"@.len());
    assert("Type"@.len() != "Comment"@.len());
    assert("Type"@[0] != "Icon"@[0]);
    assert("Type"@[0] != "Exec"@[0]);
    assert("Type"@.len() != "TryExec"@.len());
    assert("Type"@[0] != "Path"@[0]);
    assert("Type"@.len() != "StartupWMClass"@.len());
    assert("Type"@.len() != "Categories"@.len());
    assert("Type"@.len() != "MimeType"@.len());
    assert("Type"@.len() != "OnlyShowIn"@.len());
    assert("Type"@.len() != "NotShowIn"@.len());
    assert("Type"@.len() != "Terminal"@.len());
    assert("Type"@.len() != "NoDisplay"@.len());
    assert("Type"@.len() != "Hidden"@.len());
    assert("Type"@.len() != "StartupNotify"@.len());
    assert("Type"@.len() != "DBusActivatable"@.len());
    assert("Type"@.len() != "PrefersNonDefaultGPU"@.len());
    assert("Type"@.len() != "SingleMainWindow"@.len());
    assert("Name"@.len() != "GenericName"@.len());
    assert("Name"@.len() != "Comment"@.len());
    assert("Name"@[0] != "Icon"@[0]);
    assert("Name"@[0] != "Exec"@[0]);
    assert("Name"@.len() != "TryExec"@.len());
    assert("Name"@[0] != "Path"@[0]);
    assert("Name"@.len() != "StartupWMClass"@.len());
    assert("Name"@.len() != "Categories"@.len());
    assert("Name"@.len() != "MimeType"@.len());
    assert("Name"@.len() != "OnlyShowIn"@.len());
    assert("Name"@.len() != "NotShowIn"@.len());
    assert("Name"@.len() != "Terminal"@.len());
    assert("Name"@.len() != "NoDisplay"@.len());
    assert("Name"@.len() != "Hidden"@.len());
    assert("Name"@.len() != "StartupNotify"@.len());
    assert("Name"@.len() != "DBusActivatable"@.len());
    assert("Name"@.len() != "PrefersNonDefaultGPU"@.len());
    assert("Name"@.len() != "SingleMainWindow"@.len());
    assert("GenericName"@.len() != "Terminal"@.len());
    assert("GenericName"@.len() != "NoDisplay"@.len());
    assert("GenericName"@.len() != "Hidden"@.len());
    assert("GenericName"@.len() != "StartupNotify"@.len());
    assert("GenericName"@.len() != "DBusActivatable"@.len());
    assert("GenericName"@.len() != "PrefersNonDefaultGPU"@.len());
    assert("GenericName"@.len() != "SingleMainWindow"@.len());
    assert("Comment"@.len() != "Terminal"@.len());
    assert("Comment"@.len() != "NoDisplay"@.len());
    assert("Comment"@.len() != "Hidden"@.len());
    assert("Comment"@.len() != "StartupNotify"@.len());
    assert("Comment"@.len() != "DBusActivatable"@.len());
    assert("Comment"@.len() != "PrefersNonDefaultGPU"@.len());
    assert("Comment"@.len() != "SingleMainWindow"@.len());
    assert("Icon"@.len() != "Terminal"@.len());
    assert("Icon"@.len() != "NoDisplay"@.len());
    assert("Icon"@.len() != "Hidden"@.len());
    assert("Icon"@.len() != "StartupNotify"@.len());
    assert("Icon"@.len() != "DBusActivatable"@.len());
    assert("Icon"@.len() != "PrefersNonDefaultGPU"@.len());
    assert("Icon"@.len() != "SingleMainWindow"@.len());
    assert("Exec"@.len() != "Terminal"@.len());
    assert("Exec"@.len() != "NoDisplay"@.len());
    assert("Exec"@.len() != "Hidden"@.len());
    assert("Exec"@.len() != "StartupNotify"@.len());
    assert("Exec"@.len() != "DBusActivatable"@.len());
    assert("Exec"@.len() != "PrefersNonDefaultGPU"@.len());
    assert("Exec"@.len() != "SingleMainWindow"@.len());
    assert("TryExec"@.len() != "Terminal"@.len());
    assert("TryExec"@.len() != "NoDisplay"@.len());
    assert("TryExec"@.len() != "Hidden"@.len());
    assert("TryExec"@.len() != "StartupNotify"@.len());
    assert("TryExec"@.len() != "DBusActivatable"@.len());
    assert("TryExec"@.len() != "PrefersNonDefaultGPU"@.len());
    assert("TryExec"@.len() != "SingleMainWindow"@.len());
    assert("Path"@.len() != "Terminal"@.len());
    assert("Path"@.len() != "NoDisplay"@.len());
    assert("Path"@.len() != "Hidden"@.len());
    assert("Path"@.len() != "StartupNotify"@.len());
    assert("Path"@.len() != "DBusActivatable"@.len());
    assert("Path"@.len() != "PrefersNonDefaultGPU"@.len());
    assert("Path"@.len() != "SingleMainWindow"@.len());
    assert("StartupWMClass"@.len() != "Terminal"@.len());
    assert("StartupWMClass"@.len() != "NoDisplay"@.len());
    assert("StartupWMClass"@.len() != "Hidden"@.len());
    assert("StartupWMClass"@.len() != "StartupNotify"@.len());
    assert("StartupWMClass"@.len() != "DBusActivatable"@.len());
    assert("StartupWMClass"@.len() != "PrefersNonDefaultGPU"@.len());
    assert("StartupWMClass"@.len() != "SingleMainWindow"@.len());
    assert("Categories"@.len() != "Terminal"@.len());
    assert("Categories"@.len() != "NoDisplay"@.len());
    assert("Categories"@.len() != "Hidden"@.len());
    assert("Categories"@.len() != "StartupNotify"@.len());
    assert("Categories"@.len() != "DBusActivatable"@.len());
    assert("Categories"@.len() != "PrefersNonDefaultGPU"@.len());
    assert("Categories"@.len() != "SingleMainWindow"@.len());
    assert("MimeType"@[0] != "Terminal"@[0]);
    assert("MimeType"@.len() != "NoDisplay"@.len());
    assert("MimeType"@.len() != "Hidden"@.len());
    assert("MimeType"@.len() != "StartupNotify"@.len());
    assert("MimeType"@.len() != "DBusActivatable"@.len());
    assert("MimeType"@.len() != "PrefersNonDefaultGPU"@.len());
    assert("MimeType"@.len() != "SingleMainWindow"@.len());
    assert("OnlyShowIn"@.len() != "Terminal"@.len());
    assert("OnlyShowIn"@.len() != "NoDisplay"@.len());
    assert("OnlyShowIn"@.len() != "Hidden"@.len());
    assert("OnlyShowIn"@.len() != "StartupNotify"@.len());
    assert("OnlyShowIn"@.len() != "DBusActivatable"@.len());
    assert("OnlyShowIn"@.len() != "PrefersNonDefaultGPU"@.len());
    assert("OnlyShowIn"@.len() != "SingleMainWindow"@.len());
    assert("NotShowIn"@.len() != "Terminal"@.len());
    assert("NotShowIn"@[2] != "NoDisplay"@[2]);
    assert("NotShowIn"@.len() != "Hidden"@.len());
    assert("NotShowIn"@.len() != "StartupNotify"@.len());
    assert("NotShowIn"@.len() != "DBusActivatable"@.len());
    assert("NotShowIn"@.len() != "PrefersNonDefaultGPU"@.len());
    assert("NotShowIn"@.len() != "SingleMainWindow"@.len());
}


/// In a `[Desktop Action ...]` group, `Name` names the action, `Icon`
/// sets its icon and `Exec` its command, each touching nothing else, and
/// any other key is passed over.
pub proof fn lemma_action_key_sets_its_field(st: ParseState, key: Seq<char>, value: Seq<char>)
    ensures
        ({
            let r = apply_action_key(st, key, value);
            &&& r.action_name == (if key == "Name"@ { value } else { st.action_name })
            &&& r.action_icon == (if key == "Icon"@ { Some(value) } else { st.action_icon })
            &&& r.action_exec == (if key == "Exec"@ { Some(value) } else { st.action_exec })
            &&& r == (ParseState {
                action_name: r.action_name,
                action_icon: r.action_icon,
                action_exec: r.action_exec,
                ..st
            })
        }),
{
    reveal_strlit("Name");
    reveal_strlit("Icon");
    reveal_strlit("Exec");
    assert("Name"@[0] != "Icon"@[0]);
    assert("Name"@[0] != "Exec"@[0]);
    assert("Icon"@[0] != "Exec"@[0]);
}


/// A line `key=value` of the main group (or before any group header) is
/// taken as the key `key` with the value `value`, whatever white space
/// stands around the key, around the `=` and at the end of the line: for
/// a key without `=` that does not start a comment or a group header, and
/// a value, neither of which starts or ends with white space.
pub proof fn lemma_entry_line_sets(
    st: ParseState,
    w1: Seq<char>,
    key: Seq<char>,
    wk: Seq<char>,
    w2: Seq<char>,
    value: Seq<char>,
    w3: Seq<char>,
    locales: Seq<Seq<char>>,
)
    requires
        st.in_entry || st.group.len() == 0,
        all_ws(w1),
        all_ws(wk),
        all_ws(w2),
        all_ws(w3),
        key.len() > 0,
        !is_ws(key[0]),
        !is_ws(key.last()),
        key[0] != '#',
        key[0] != '[',
        forall|j: int| 0 <= j < key.len() ==> key[j] != '=',
        value.len() > 0,
        !is_ws(value[0]),
        !is_ws(value.last()),
    ensures
        apply_entry_line(st, w1 + key + wk + seq!['='] + w2 + value + w3, locales)
            == apply_main_key(st, key, value, locales),
{
    let mid = key + wk + seq!['='] + w2 + value;
    assert(w1 + key + wk + seq!['='] + w2 + value + w3 =~= w1 + mid + w3);
    assert(mid[0] == key[0]);
    assert(mid.last() == value.last());
    lemma_trim_padded(w1, mid, w3);
    let l = trim(w1 + key + wk + seq!['='] + w2 + value + w3);
    assert(l == mid);
    lemma_find_char_props(l, '=');
    let k: int = (key.len() + wk.len()) as int;
    assert(l[k] == '=');
    assert forall|j: int| 0 <= j < k implies l[j] != '=' by {
        if j < key.len() {
            assert(l[j] == key[j]);
        } else {
            assert(l[j] == wk[j - key.len()]);
            assert(is_ws(wk[j - key.len()]));
        }
    }
    assert(find_char(l, '=') == Some(k));
    assert(l.take(k) =~= Seq::<char>::empty() + key + wk);
    lemma_trim_padded(Seq::empty(), key, wk);
    assert(l.skip(k + 1) =~= w2 + value + Seq::<char>::empty());
    lemma_trim_padded(w2, value, Seq::empty());
}

} // verus!
