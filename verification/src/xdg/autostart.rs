//! Autostart, after the freedesktop.org Autostart Specification: the
//! directories searched, the choice of entries among the `.desktop` files
//! found there, their order, and their launch bookkeeping.
use vstd::prelude::*;
use crate::text::{chars_of, str_eq, find_char, lemma_find_char_props, find_char_in, string_of, seq_lt, str_lt, lemma_seq_lt_transitive, lemma_seq_lt_asymmetric};
use crate::probe::{path_join, joined_path, path_extension, extension_of, path_file_name, file_name_of};
use crate::xdg::entry::{
    DesktopEntry, EntryType, EntryView, strs_view, lists_desktop, substituted, entry_of_file, opt_str_view,
};

verus! {

broadcast use vstd::std_specs::vec::group_vec_axioms;

/// Where an autostart entry was found, most preferred first.
#[derive(Debug, Clone, Copy, PartialEq, Eq, Structural)]
pub enum AutostartSource {
    UserConfig,
    UserAutostart,
    SystemAutostart,
    SystemEtc,
}

/// The rank of a source: lower ranks are preferred.
pub open spec fn priority_of(s: AutostartSource) -> int {
    match s {
        AutostartSource::UserConfig => 0,
        AutostartSource::UserAutostart => 1,
        AutostartSource::SystemAutostart => 2,
        AutostartSource::SystemEtc => 3,
    }
}

impl AutostartSource {
    /// The rank of the source: lower ranks are preferred.
    pub fn priority(&self) -> (p: u8)
        ensures
            p == priority_of(*self),
    {
        match self {
            AutostartSource::UserConfig => 0,
            AutostartSource::UserAutostart => 1,
            AutostartSource::SystemAutostart => 2,
            AutostartSource::SystemEtc => 3,
        }
    }
}

/// An entry to start with the session.
#[derive(Debug, Clone)]
pub struct AutostartEntry {
    pub entry: DesktopEntry,
    pub source: AutostartSource,
    pub enabled: bool,
    pub pid: Option<i32>,
}

/// The value of an autostart entry.
pub struct AutoView {
    pub entry: EntryView,
    pub source: AutostartSource,
    pub enabled: bool,
    pub pid: Option<i32>,
}

impl AutostartEntry {
    pub open spec fn view_of(&self) -> AutoView {
        AutoView {
            entry: self.entry.view_of(),
            source: self.source,
            enabled: self.enabled,
            pid: self.pid,
        }
    }
}

pub open spec fn autos_view(s: Seq<AutostartEntry>) -> Seq<AutoView> {
    s.map_values(|a: AutostartEntry| a.view_of())
}

/// A file found in an autostart directory: its path, the directory's
/// source, and the entry its text parses to, where it does.
#[derive(Debug, Clone)]
pub struct AutostartCandidate {
    pub path: String,
    pub source: AutostartSource,
    pub entry: Option<DesktopEntry>,
}

pub struct CandidateView {
    pub path: Seq<char>,
    pub source: AutostartSource,
    pub entry: Option<EntryView>,
}

impl AutostartCandidate {
    pub open spec fn view_of(&self) -> CandidateView {
        CandidateView {
            path: self.path@,
            source: self.source,
            entry: match self.entry {
                Some(e) => Some(e.view_of()),
                None => None,
            },
        }
    }

    /// The candidate for the file `path` of an autostart directory of
    /// source `source`, whose text is `text` where it was read: a desktop
    /// file's text is parsed with `DesktopEntry::parse_str` (see
    /// `entry_of_file`).
    pub fn from_file(
        path: &str,
        source: AutostartSource,
        text: Option<&str>,
        lang: Option<&str>,
        search_path: Option<&str>,
    ) -> (c: AutostartCandidate)
        ensures
            c.path@ == path@,
            c.source == source,
            entry_of_file(c.entry, path@, opt_str_view(text), opt_str_view(lang), is_desktop_path(path@)),
    {
        let desktop = is_desktop_file(path);
        let entry = match text {
            Some(t) => if desktop {
                DesktopEntry::parse_str(t, path, lang, search_path)
            } else {
                None
            },
            None => None,
        };
        AutostartCandidate { path: path.to_owned(), source, entry }
    }
}

pub open spec fn cands_view(s: Seq<AutostartCandidate>) -> Seq<CandidateView> {
    s.map_values(|c: AutostartCandidate| c.view_of())
}

/// The file name under which a path is remembered (empty where it has
/// none).
pub open spec fn remembered_name(path: Seq<char>) -> Seq<char> {
    match file_name_of(path) {
        Some(n) => n,
        None => Seq::empty(),
    }
}

/// A path whose extension is `desktop`.
pub open spec fn is_desktop_path(path: Seq<char>) -> bool {
    extension_of(path) == Some("desktop"@)
}

/// The entry is shown in `desktop` (see `DesktopEntry::should_show_in`).
pub open spec fn shown_in(e: EntryView, desktop: Seq<char>) -> bool {
    (e.only_show_in.len() == 0 || lists_desktop(e.only_show_in, desktop)) && !lists_desktop(
        e.not_show_in,
        desktop,
    )
}

/// An entry that autostart takes: an application, shown in `desktop`,
/// not hidden.
pub open spec fn takes_entry(e: EntryView, desktop: Seq<char>) -> bool {
    e.entry_type == EntryType::Application && shown_in(e, desktop) && !e.hidden
}

/// The entries taken from the candidates, in the order found: a
/// `.desktop` file whose name was not taken before and whose entry is
/// taken; it is enabled unless marked `NoDisplay`. `seen` holds the
/// names taken so far.
pub open spec fn select_autostart(
    c: Seq<CandidateView>,
    desktop: Seq<char>,
    seen: Seq<Seq<char>>,
) -> Seq<AutoView>
    decreases c.len(),
{
    if c.len() == 0 {
        Seq::empty()
    } else {
        let x = c[0];
        let name = remembered_name(x.path);
        if !is_desktop_path(x.path) || seen.contains(name) {
            select_autostart(c.drop_first(), desktop, seen)
        } else {
            match x.entry {
                Some(e) => if takes_entry(e, desktop) {
                    seq![AutoView { entry: e, source: x.source, enabled: !e.no_display, pid: None }]
                        + select_autostart(c.drop_first(), desktop, seen.push(name))
                } else {
                    select_autostart(c.drop_first(), desktop, seen)
                },
                None => select_autostart(c.drop_first(), desktop, seen),
            }
        }
    }
}

/// `a` goes after `b`: a less preferred source, or the same source and a
/// greater name.
pub open spec fn goes_after(a: AutoView, b: AutoView) -> bool {
    priority_of(a.source) > priority_of(b.source) || (priority_of(a.source) == priority_of(b.source)
        && seq_lt(b.entry.name, a.entry.name))
}

/// `x` inserted into `s` before the first item it does not go after.
pub open spec fn insert_ordered(s: Seq<AutoView>, x: AutoView) -> Seq<AutoView>
    decreases s.len(),
{
    if s.len() == 0 {
        seq![x]
    } else if goes_after(s[0], x) {
        seq![x] + s
    } else {
        seq![s[0]] + insert_ordered(s.drop_first(), x)
    }
}

/// `s` sorted by source, then by name, items that compare equal keeping
/// their order (a stable sort).
pub open spec fn sort_autostart(s: Seq<AutoView>) -> Seq<AutoView>
    decreases s.len(),
{
    if s.len() == 0 {
        s
    } else {
        insert_ordered(sort_autostart(s.drop_last()), s.last())
    }
}

/// The number of enabled entries.
pub open spec fn count_enabled(s: Seq<AutoView>) -> nat
    decreases s.len(),
{
    if s.len() == 0 {
        0
    } else {
        count_enabled(s.drop_last()) + if s.last().enabled {
            1nat
        } else {
            0nat
        }
    }
}

/// The position of the first entry named `name`.
pub open spec fn first_auto_named(s: Seq<AutoView>, name: Seq<char>) -> Option<int> {
    if exists|i: int| 0 <= i < s.len() && s[i].entry.name == name {
        Some(
            choose|i: int|
                0 <= i < s.len() && s[i].entry.name == name && forall|j: int|
                    0 <= j < i ==> s[j].entry.name != name,
        )
    } else {
        None
    }
}

/// The entries after flipping whether the first entry named `name` is
/// enabled (unchanged where none has that name).
pub open spec fn toggled(s: Seq<AutoView>, name: Seq<char>) -> Seq<AutoView> {
    match first_auto_named(s, name) {
        Some(i) => s.update(i, AutoView { enabled: !s[i].enabled, ..s[i] }),
        None => s,
    }
}

proof fn lemma_min_named_exists(s: Seq<AutoView>, name: Seq<char>, k: int)
    requires
        0 <= k < s.len(),
        s[k].entry.name == name,
    ensures
        exists|i: int|
            0 <= i < s.len() && s[i].entry.name == name && forall|j: int|
                0 <= j < i ==> s[j].entry.name != name,
    decreases k,
{
    if exists|j: int| 0 <= j < k && s[j].entry.name == name {
        let j = choose|j: int| 0 <= j < k && s[j].entry.name == name;
        lemma_min_named_exists(s, name, j);
    } else {
        assert(forall|j: int| 0 <= j < k ==> s[j].entry.name != name);
    }
}

/// What `first_auto_named` finds.
pub proof fn lemma_first_auto_named(s: Seq<AutoView>, name: Seq<char>)
    ensures
        match first_auto_named(s, name) {
            Some(i) => 0 <= i < s.len() && s[i].entry.name == name && forall|j: int|
                0 <= j < i ==> s[j].entry.name != name,
            None => forall|j: int| 0 <= j < s.len() ==> s[j].entry.name != name,
        },
{
    if exists|k: int| 0 <= k < s.len() && s[k].entry.name == name {
        let k = choose|k: int| 0 <= k < s.len() && s[k].entry.name == name;
        lemma_min_named_exists(s, name, k);
    }
}

/// Toggling the same name twice restores the entries.
pub proof fn lemma_toggle_twice(s: Seq<AutoView>, name: Seq<char>)
    ensures
        toggled(toggled(s, name), name) == s,
{
    let t = toggled(s, name);
    lemma_first_auto_named(s, name);
    lemma_first_auto_named(t, name);
    match first_auto_named(s, name) {
        Some(i) => {
            assert(t[i].entry.name == name);
            match first_auto_named(t, name) {
                Some(i2) => {
                    if i2 < i {
                        assert(t[i2] == s[i2]);
                    }
                    if i < i2 {
                        assert(t[i].entry.name == name);
                    }
                    assert(i2 == i);
                    assert(toggled(t, name) =~= s);
                },
                None => {
                    assert(t[i].entry.name == name);
                },
            }
        },
        None => {
            assert(t == s);
        },
    }
}

/// The pieces of `s` between the separators `c`, empty ones included
/// (`str::split`).
pub open spec fn split_all(s: Seq<char>, c: char) -> Seq<Seq<char>>
    decreases s.len(),
{
    match find_char(s, c) {
        Some(i) => {
            proof {
                lemma_find_char_props(s, c);
            }
            seq![s.take(i)] + split_all(s.skip(i + 1), c)
        },
        None => seq![s],
    }
}

/// The directories searched, most preferred first: under the user's
/// configuration directory `home`, `labwc/autostart` and `autostart`;
/// `autostart` under each directory of the list `dirs`; then
/// `/etc/xdg/autostart`.
pub open spec fn autostart_dirs_for(home: Seq<char>, dirs: Seq<char>) -> Seq<(Seq<char>, AutostartSource)> {
    seq![
        (joined_path(home, "labwc/autostart"@), AutostartSource::UserConfig),
        (joined_path(home, "autostart"@), AutostartSource::UserAutostart),
    ] + split_all(dirs, ':').map_values(
        |d: Seq<char>| (joined_path(d, "autostart"@), AutostartSource::SystemAutostart),
    ) + seq![("/etc/xdg/autostart"@, AutostartSource::SystemEtc)]
}

/// The launches a manager holds.
#[derive(Debug)]
pub struct AutostartManager {
    pub entries: Vec<AutostartEntry>,
    pub desktop_name: String,
    pub launched: Vec<i32>,
}

/// `a` goes after `b` in the autostart order.
fn entry_goes_after(a: &AutostartEntry, b: &AutostartEntry) -> (r: bool)
    ensures
        r == goes_after(a.view_of(), b.view_of()),
{
    let pa = a.source.priority();
    let pb = b.source.priority();
    pa > pb || (pa == pb && str_lt(b.entry.name.as_str(), a.entry.name.as_str()))
}

proof fn lemma_insert_ordered_at(s: Seq<AutoView>, x: AutoView, j: int)
    requires
        0 <= j <= s.len(),
        forall|k: int| 0 <= k < j ==> !goes_after(#[trigger] s[k], x),
        j == s.len() || goes_after(s[j], x),
    ensures
        insert_ordered(s, x) == s.insert(j, x),
    decreases j,
{
    if j == 0 {
        if s.len() == 0 {
            assert(s.insert(0, x) =~= seq![x]);
        } else {
            assert(s.insert(0, x) =~= seq![x] + s);
        }
    } else {
        let t = s.drop_first();
        assert forall|k: int| 0 <= k < j - 1 implies !goes_after(#[trigger] t[k], x) by {
            assert(t[k] == s[k + 1]);
        }
        lemma_insert_ordered_at(t, x, j - 1);
        assert(s.insert(j, x) =~= seq![s[0]] + t.insert(j - 1, x));
    }
}

/// `v` sorted by source, then by name, equal items keeping their order.
fn sort_entries(v: Vec<AutostartEntry>) -> (r: Vec<AutostartEntry>)
    ensures
        autos_view(r@) == sort_autostart(autos_view(v@)),
{
    let ghost all = autos_view(v@);
    let mut rest = v;
    let mut out: Vec<AutostartEntry> = Vec::new();
    let ghost mut k: int = 0;
    assert(all.take(0) =~= Seq::<AutoView>::empty());
    assert(autos_view(out@) =~= Seq::<AutoView>::empty());
    while rest.len() > 0
        invariant
            0 <= k <= all.len(),
            rest@.len() + k == all.len(),
            autos_view(rest@) == all.skip(k),
            autos_view(out@) == sort_autostart(all.take(k)),
        decreases rest.len(),
    {
        let ghost before = autos_view(out@);
        let ghost old_rest = rest@;
        let x = rest.remove(0);
        proof {
            assert(autos_view(old_rest)[0] == all.skip(k)[0]);
            assert(x.view_of() == all[k]);
            assert forall|m: int| 0 <= m < rest@.len() implies autos_view(rest@)[m] == all.skip(k + 1)[m] by {
                assert(rest@[m] == old_rest[m + 1]);
                assert(autos_view(old_rest)[m + 1] == all.skip(k)[m + 1]);
            }
            assert(autos_view(rest@) =~= all.skip(k + 1));
        }
        let mut j: usize = 0;
        while j < out.len() && !entry_goes_after(&out[j], &x)
            invariant
                j <= out.len(),
                before == autos_view(out@),
                forall|m: int| 0 <= m < j ==> !goes_after(#[trigger] before[m], x.view_of()),
            decreases out.len() - j,
        {
            j = j + 1;
        }
        proof {
            lemma_insert_ordered_at(before, x.view_of(), j as int);
            assert(all.take(k + 1).drop_last() =~= all.take(k));
        }
        out.insert(j, x);
        proof {
            assert(autos_view(out@) =~= before.insert(j as int, all[k]));
            k = k + 1;
        }
    }
    assert(all.take(k) =~= all);
    out
}

/// `seen` holds `s`.
fn holds_str(seen: &Vec<String>, s: &str) -> (b: bool)
    ensures
        b == strs_view(seen@).contains(s@),
{
    let ghost l = strs_view(seen@);
    let mut i: usize = 0;
    while i < seen.len()
        invariant
            i <= seen.len(),
            l == strs_view(seen@),
            forall|j: int| 0 <= j < i ==> l[j] != s@,
        decreases seen.len() - i,
    {
        if str_eq(seen[i].as_str(), s) {
            assert(l[i as int] == s@);
            return true;
        }
        i = i + 1;
    }
    false
}

impl AutostartManager {
    /// An empty manager for the desktop `labwc-rs`.
    pub fn new() -> (m: AutostartManager)
        ensures
            m.entries@.len() == 0,
            m.desktop_name@ == "labwc-rs"@,
            m.launched@.len() == 0,
    {
        AutostartManager { entries: Vec::new(), desktop_name: "labwc-rs".to_owned(), launched: Vec::new() }
    }

    /// Replaces the entries by those chosen among the files found in the
    /// autostart directories (see `select_autostart`), listed in the order
    /// the directories were searched, most preferred first; the result is
    /// ordered by source, then by name.
    pub fn scan(&mut self, found: Vec<AutostartCandidate>)
        ensures
            autos_view(final(self).entries@) == sort_autostart(
                select_autostart(cands_view(found@), old(self).desktop_name@, Seq::empty()),
            ),
            final(self).desktop_name == old(self).desktop_name,
            final(self).launched == old(self).launched,
    {
        let ghost all = cands_view(found@);
        let ghost d = self.desktop_name@;
        let mut rest = found;
        let mut seen: Vec<String> = Vec::new();
        let mut picked: Vec<AutostartEntry> = Vec::new();
        let ghost mut k: int = 0;
        assert(all.skip(0) =~= all);
        assert(strs_view(seen@) =~= Seq::<Seq<char>>::empty());
        assert(autos_view(picked@) + select_autostart(all, d, Seq::empty()) =~= select_autostart(
            all,
            d,
            Seq::empty(),
        ));
        while rest.len() > 0
            invariant
                0 <= k <= all.len(),
                rest@.len() + k == all.len(),
                cands_view(rest@) == all.skip(k),
                d == self.desktop_name@,
                select_autostart(all, d, Seq::empty()) == autos_view(picked@) + select_autostart(
                    all.skip(k),
                    d,
                    strs_view(seen@),
                ),
            decreases rest.len(),
        {
            let ghost old_rest = rest@;
            let ghost tail = all.skip(k);
            let ghost before = autos_view(picked@);
            let ghost seen0 = strs_view(seen@);
            let c = rest.remove(0);
            proof {
                assert(cands_view(old_rest)[0] == tail[0]);
                assert forall|m: int| 0 <= m < rest@.len() implies cands_view(rest@)[m] == all.skip(k + 1)[m] by {
                    assert(rest@[m] == old_rest[m + 1]);
                    assert(cands_view(old_rest)[m + 1] == tail[m + 1]);
                }
                assert(cands_view(rest@) =~= all.skip(k + 1));
                assert(tail.drop_first() =~= all.skip(k + 1));
                k = k + 1;
            }
            if !is_desktop_file(c.path.as_str()) {
                continue;
            }
            let name = match path_file_name(c.path.as_str()) {
                Some(n) => n,
                None => String::new(),
            };
            if holds_str(&seen, name.as_str()) {
                continue;
            }
            match c.entry {
                Some(e) => {
                    if e.entry_type != EntryType::Application || !e.should_show_in(
                        self.desktop_name.as_str(),
                    ) || e.hidden {
                        continue;
                    }
                    let enabled = !e.no_display;
                    let ghost ev = e.view_of();
                    seen.push(name);
                    picked.push(AutostartEntry { entry: e, source: c.source, enabled, pid: None });
                    proof {
                        assert(strs_view(seen@) =~= seen0.push(remembered_name(tail[0].path)));
                        let item = AutoView {
                            entry: ev,
                            source: tail[0].source,
                            enabled: !ev.no_display,
                            pid: None,
                        };
                        assert(autos_view(picked@) =~= before.push(item));
                        assert(before + (seq![item] + select_autostart(
                            all.skip(k),
                            d,
                            strs_view(seen@),
                        )) =~= autos_view(picked@) + select_autostart(
                            all.skip(k),
                            d,
                            strs_view(seen@),
                        ));
                    }
                },
                None => {},
            }
        }
        assert(all.skip(k).len() == 0);
        assert(autos_view(picked@) + Seq::<AutoView>::empty() =~= autos_view(picked@));
        self.entries = sort_entries(picked);
    }

    /// Flips whether the first entry named `name` is enabled; false where
    /// no entry has that name.
    pub fn toggle(&mut self, name: &str) -> (found: bool)
        ensures
            found == first_auto_named(autos_view(old(self).entries@), name@) is Some,
            autos_view(final(self).entries@) == toggled(autos_view(old(self).entries@), name@),
            final(self).desktop_name == old(self).desktop_name,
            final(self).launched == old(self).launched,
    {
        let ghost s = autos_view(self.entries@);
        let mut i: usize = 0;
        while i < self.entries.len()
            invariant
                i <= self.entries.len(),
                s == autos_view(self.entries@),
                self.entries@ == old(self).entries@,
                self.desktop_name == old(self).desktop_name,
                self.launched == old(self).launched,
                forall|j: int| 0 <= j < i ==> s[j].entry.name != name@,
            decreases self.entries.len() - i,
        {
            if str_eq(self.entries[i].entry.name.as_str(), name) {
                proof {
                    assert(s[i as int].entry.name == name@);
                    let c = choose|m: int|
                        0 <= m < s.len() && s[m].entry.name == name@ && forall|j: int|
                            0 <= j < m ==> s[j].entry.name != name@;
                    assert(c == i) by {
                        if c < i {
                            assert(s[c].entry.name != name@);
                        }
                        if c > i {
                            assert(s[i as int].entry.name != name@);
                        }
                    }
                }
                let flipped = !self.entries[i].enabled;
                let mut entries: Vec<AutostartEntry> = Vec::new();
        std::mem::swap(&mut entries, &mut self.entries);
                let mut e = entries.remove(i);
                e.enabled = flipped;
                entries.insert(i, e);
                self.entries = entries;
                proof {
                    assert(autos_view(self.entries@) =~= s.update(
                        i as int,
                        AutoView { enabled: !s[i as int].enabled, ..s[i as int] },
                    ));
                }
                return true;
            }
            i = i + 1;
        }
        false
    }

    /// The number of enabled entries.
    pub fn enabled_count(&self) -> (n: usize)
        ensures
            n == count_enabled(autos_view(self.entries@)),
    {
        let ghost s = autos_view(self.entries@);
        let mut n: usize = 0;
        let mut i: usize = 0;
        while i < self.entries.len()
            invariant
                i <= self.entries.len(),
                s == autos_view(self.entries@),
                n == count_enabled(s.take(i as int)),
                n <= i,
            decreases self.entries.len() - i,
        {
            assert(s.take(i + 1).drop_last() =~= s.take(i as int));
            if self.entries[i].enabled {
                n = n + 1;
            }
            i = i + 1;
        }
        assert(s.take(i as int) =~= s);
        n
    }

    /// The number of disabled entries.
    pub fn disabled_count(&self) -> (n: usize)
        ensures
            n == self.entries@.len() - count_enabled(autos_view(self.entries@)),
    {
        proof {
            lemma_count_enabled_le(autos_view(self.entries@));
        }
        self.entries.len() - self.enabled_count()
    }

    /// The launches to make: the position and command of each enabled
    /// entry that has a command, in order.
    pub fn launch_targets(&self) -> (r: Vec<(usize, String)>)
        ensures
            forall|k: int| 0 <= k < r@.len() ==> {
                let i = #[trigger] r@[k].0 as int;
                &&& 0 <= i < self.entries@.len()
                &&& self.entries@[i].enabled
                &&& self.entries@[i].entry.exec_line matches Some(x) && r@[k].1@ == substituted(x@)
            },
            forall|i: int|
                0 <= i < self.entries@.len() && self.entries@[i].enabled
                    && self.entries@[i].entry.exec_line is Some ==> exists|k: int|
                    0 <= k < r@.len() && #[trigger] r@[k].0 == i,
            forall|a: int, b: int| 0 <= a < b < r@.len() ==> r@[a].0 < r@[b].0,
    {
        let mut out: Vec<(usize, String)> = Vec::new();
        let mut i: usize = 0;
        while i < self.entries.len()
            invariant
                i <= self.entries.len(),
                forall|k: int| 0 <= k < out@.len() ==> {
                    let j = #[trigger] out@[k].0 as int;
                    &&& 0 <= j < i
                    &&& self.entries@[j].enabled
                    &&& self.entries@[j].entry.exec_line matches Some(x) && out@[k].1@
                        == substituted(x@)
                },
                forall|j: int|
                    0 <= j < i && self.entries@[j].enabled && self.entries@[j].entry.exec_line is Some
                        ==> exists|k: int| 0 <= k < out@.len() && #[trigger] out@[k].0 == j,
                forall|a: int, b: int| 0 <= a < b < out@.len() ==> out@[a].0 < out@[b].0,
            decreases self.entries.len() - i,
        {
            let ghost old_out = out@;
            if self.entries[i].enabled {
                match self.entries[i].entry.exec_command() {
                    Some(cmd) => {
                        out.push((i, cmd));
                        assert(out@[out@.len() - 1].0 == i);
                    },
                    None => {},
                }
            }
            proof {
                assert forall|j: int|
                    0 <= j < i + 1 && self.entries@[j].enabled && self.entries@[j].entry.exec_line is Some
                        implies exists|k: int| 0 <= k < out@.len() && #[trigger] out@[k].0 == j by {
                    if j < i {
                        let k = choose|k: int| 0 <= k < old_out.len() && #[trigger] old_out[k].0 == j;
                        assert(out@[k] == old_out[k]);
                    } else {
                        assert(out@[out@.len() - 1].0 == j);
                    }
                }
            }
            i = i + 1;
        }
        out
    }

    /// Records that the entry at `index` was launched as process `pid`.
    pub fn record_launch(&mut self, index: usize, pid: i32)
        requires
            index < old(self).entries@.len(),
        ensures
            autos_view(final(self).entries@) == autos_view(old(self).entries@).update(
                index as int,
                AutoView { pid: Some(pid), ..autos_view(old(self).entries@)[index as int] },
            ),
            final(self).launched@ == old(self).launched@.push(pid),
            final(self).desktop_name == old(self).desktop_name,
    {
        let ghost s = autos_view(self.entries@);
        let mut entries: Vec<AutostartEntry> = Vec::new();
        std::mem::swap(&mut entries, &mut self.entries);
        let mut e = entries.remove(index);
        e.pid = Some(pid);
        entries.insert(index, e);
        self.entries = entries;
        self.launched.push(pid);
        assert(autos_view(self.entries@) =~= s.update(
            index as int,
            AutoView { pid: Some(pid), ..s[index as int] },
        ));
    }
}

proof fn lemma_count_enabled_le(s: Seq<AutoView>)
    ensures
        count_enabled(s) <= s.len(),
    decreases s.len(),
{
    if s.len() > 0 {
        lemma_count_enabled_le(s.drop_last());
    }
}

impl Default for AutostartManager {
    fn default() -> (m: AutostartManager)
        ensures
            m.entries@.len() == 0,
            m.desktop_name@ == "labwc-rs"@,
            m.launched@.len() == 0,
    {
        AutostartManager::new()
    }
}

pub open spec fn dir_view(p: (String, AutostartSource)) -> (Seq<char>, AutostartSource) {
    (p.0@, p.1)
}

pub proof fn lemma_split_all_nonempty(s: Seq<char>, c: char)
    ensures
        split_all(s, c).len() >= 1,
{
}

/// Whether a path names a `.desktop` file (its extension is `desktop`).
pub fn is_desktop_file(path: &str) -> (b: bool)
    ensures
        b == is_desktop_path(path@),
{
    match path_extension(path) {
        Some(e) => str_eq(e.as_str(), "desktop"),
        None => false,
    }
}

/// The directories to search for autostart entries, most preferred first,
/// with their sources, given the user's configuration directory and the
/// value of `XDG_CONFIG_DIRS`, where they are known; they default to
/// `~/.config` and `/etc/xdg`.
pub fn autostart_dirs(config_home: Option<&str>, config_dirs: Option<&str>) -> (r: Vec<(String, AutostartSource)>)
    ensures
        r@.map_values(|p: (String, AutostartSource)| dir_view(p)) == autostart_dirs_for(
            match config_home {
                Some(h) => h@,
                None => "~/.config"@,
            },
            match config_dirs {
                Some(d) => d@,
                None => "/etc/xdg"@,
            },
        ),
{
    let home = match config_home {
        Some(h) => h,
        None => "~/.config",
    };
    let dirs = match config_dirs {
        Some(d) => d,
        None => "/etc/xdg",
    };
    let mut out: Vec<(String, AutostartSource)> = Vec::new();
    out.push((path_join(home, "labwc/autostart"), AutostartSource::UserConfig));
    out.push((path_join(home, "autostart"), AutostartSource::UserAutostart));
    let ghost head = out@.map_values(|p: (String, AutostartSource)| dir_view(p));
    let ghost pieces = split_all(dirs@, ':');
    let ghost sys = pieces.map_values(
        |d: Seq<char>| (joined_path(d, "autostart"@), AutostartSource::SystemAutostart),
    );
    let v = chars_of(dirs);
    let mut pos: usize = 0;
    let mut done = false;
    let ghost mut k: int = 0;
    assert(v@.subrange(0, v@.len() as int) =~= v@);
    assert(head + sys.take(0) =~= head);
    while !done
        invariant
            pos <= v.len(),
            v@ == dirs@,
            0 <= k,
            !done ==> k < pieces.len() && split_all(v@.subrange(pos as int, v@.len() as int), ':')
                == pieces.skip(k),
            done ==> k == pieces.len(),
            out@.map_values(|p: (String, AutostartSource)| dir_view(p)) == head + sys.take(k),
            sys == pieces.map_values(
                |d: Seq<char>| (joined_path(d, "autostart"@), AutostartSource::SystemAutostart),
            ),
        decreases (if done { 0 } else { v.len() - pos + 1 }),
    {
        let ghost rest = v@.subrange(pos as int, v@.len() as int);
        let ghost before = out@.map_values(|p: (String, AutostartSource)| dir_view(p));
        let end = match find_char_in(&v, pos, v.len(), ':') {
            Some(i) => {
                proof {
                    lemma_find_char_props(rest, ':');
                    assert(rest.take(i as int) =~= v@.subrange(pos as int, pos + i));
                    assert(rest.skip(i + 1) =~= v@.subrange(pos + i + 1, v@.len() as int));
                    lemma_split_all_nonempty(rest.skip(i + 1), ':');
                }
                pos + i
            },
            None => v.len(),
        };
        let dir = string_of(&v, pos, end);
        proof {
            assert(pieces.skip(k)[0] == dir@);
            assert(pieces[k] == dir@);
        }
        let joined = path_join(dir.as_str(), "autostart");
        assert(joined@ == joined_path(pieces[k], "autostart"@));
        let ghost jv = joined@;
        out.push((joined, AutostartSource::SystemAutostart));
        assert(out@[out@.len() - 1].0@ == jv);
        proof {
            assert(sys[k] == (joined_path(pieces[k], "autostart"@), AutostartSource::SystemAutostart));
            assert(dir_view(out@[out@.len() - 1]) == sys[k]);
            assert(sys.take(k + 1) =~= sys.take(k).push(sys[k]));
            assert(out@.map_values(|p: (String, AutostartSource)| dir_view(p)) =~= before.push(sys[k]));
            assert(pieces.skip(k).drop_first() =~= pieces.skip(k + 1));
            k = k + 1;
        }
        if end == v.len() {
            proof {
                assert(pieces.skip(k - 1).len() == 1);
            }
            done = true;
        } else {
            pos = end + 1;
        }
    }
    let ghost before = out@.map_values(|p: (String, AutostartSource)| dir_view(p));
    out.push(("/etc/xdg/autostart".to_owned(), AutostartSource::SystemEtc));
    proof {
        assert(sys.take(k) =~= sys);
        assert(out@.map_values(|p: (String, AutostartSource)| dir_view(p)) =~= before.push(("/etc/xdg/autostart"@, AutostartSource::SystemEtc)));
        assert(head =~= seq![
            (joined_path(home@, "labwc/autostart"@), AutostartSource::UserConfig),
            (joined_path(home@, "autostart"@), AutostartSource::UserAutostart),
        ]);
    }
    out
}

/// No entry goes after a later one: sources in order of preference, then
/// names in order.
pub open spec fn autostart_ordered(s: Seq<AutoView>) -> bool {
    forall|i: int, j: int| 0 <= i < j < s.len() ==> !goes_after(#[trigger] s[i], #[trigger] s[j])
}

proof fn lemma_goes_after_order(a: AutoView, b: AutoView, c: AutoView)
    ensures
        goes_after(a, b) && goes_after(b, c) ==> goes_after(a, c),
        !(goes_after(a, b) && goes_after(b, a)),
{
    lemma_seq_lt_asymmetric(a.entry.name, b.entry.name);
    if goes_after(a, b) && goes_after(b, c) {
        if priority_of(a.source) == priority_of(b.source) && priority_of(b.source) == priority_of(c.source) {
            lemma_seq_lt_transitive(c.entry.name, b.entry.name, a.entry.name);
        }
    }
}

proof fn lemma_insert_ordered_sorted(s: Seq<AutoView>, x: AutoView)
    requires
        autostart_ordered(s),
    ensures
        autostart_ordered(insert_ordered(s, x)),
        insert_ordered(s, x).to_multiset() == s.to_multiset().insert(x),
    decreases s.len(),
{
    broadcast use vstd::seq_lib::group_to_multiset_ensures, vstd::multiset::group_multiset_axioms;
    let r = insert_ordered(s, x);
    if s.len() == 0 {
        assert(r =~= seq![x]);
        assert(seq![x] =~= Seq::<AutoView>::empty().push(x));
    } else if goes_after(s[0], x) {
        assert(r == seq![x] + s);
        vstd::seq_lib::lemma_multiset_commutative(seq![x], s);
        assert(seq![x] =~= Seq::<AutoView>::empty().push(x));
        assert forall|i: int, j: int| 0 <= i < j < r.len() implies !goes_after(#[trigger] r[i], #[trigger] r[j]) by {
            if i == 0 {
                lemma_goes_after_order(s[0], x, r[j]);
                if j - 1 > 0 {
                    assert(!goes_after(s[0], s[j - 1]));
                }
            } else {
                assert(r[i] == s[i - 1] && r[j] == s[j - 1]);
            }
        }
    } else {
        let t = s.drop_first();
        assert(autostart_ordered(t)) by {
            assert forall|i: int, j: int| 0 <= i < j < t.len() implies !goes_after(#[trigger] t[i], #[trigger] t[j]) by {
                assert(t[i] == s[i + 1] && t[j] == s[j + 1]);
            }
        }
        lemma_insert_ordered_sorted(t, x);
        let u = insert_ordered(t, x);
        assert(r == seq![s[0]] + u);
        vstd::seq_lib::lemma_multiset_commutative(seq![s[0]], u);
        vstd::seq_lib::lemma_multiset_commutative(seq![s[0]], t);
        assert(s =~= seq![s[0]] + t);
        assert forall|i: int, j: int| 0 <= i < j < r.len() implies !goes_after(#[trigger] r[i], #[trigger] r[j]) by {
            if i == 0 {
                let y = u[j - 1];
                assert(u.to_multiset().count(y) > 0);
                if y != x {
                    assert(t.to_multiset().count(y) > 0);
                    assert(t.contains(y));
                    let m = choose|m: int| 0 <= m < t.len() && t[m] == y;
                    assert(s[m + 1] == y);
                }
            } else {
                assert(r[i] == u[i - 1] && r[j] == u[j - 1]);
            }
        }
    }
}

/// Scanning orders the entries: sources in order of preference, then names
/// in order, and the order holds every entry chosen, each once.
pub proof fn lemma_sort_autostart_ordered(s: Seq<AutoView>)
    ensures
        autostart_ordered(sort_autostart(s)),
        sort_autostart(s).to_multiset() == s.to_multiset(),
    decreases s.len(),
{
    broadcast use vstd::seq_lib::group_to_multiset_ensures, vstd::multiset::group_multiset_axioms;
    if s.len() > 0 {
        lemma_sort_autostart_ordered(s.drop_last());
        lemma_insert_ordered_sorted(sort_autostart(s.drop_last()), s.last());
        assert(s =~= s.drop_last().push(s.last()));
    }
}

} // verus!
