//! freedesktop.org desktop entries and the autostart specification, and
//! the choice of the applications to list among the desktop files found.
pub mod entry;
pub mod autostart;

use vstd::prelude::*;
use crate::text::{seq_lt, str_lt, lemma_seq_lt_transitive, lemma_seq_lt_asymmetric, lowercase_of, to_lowercase, chars_of, find_char_in, lemma_find_char_props, string_of};
use crate::probe::{path_join, joined_path};
use self::entry::{DesktopEntry, EntryView, shown_in_spec, entry_of_file, opt_str_view};
use crate::panel::{is_pinned_kind, is_pinned_entry};
use self::autostart::{is_desktop_file, is_desktop_path, remembered_name, split_all, lemma_split_all_nonempty};

verus! {

broadcast use vstd::std_specs::vec::group_vec_axioms;

/// A file found in an applications directory: its path, and the entry its
/// text parses to, where it does.
#[derive(Debug, Clone)]
pub struct AppCandidate {
    pub path: String,
    pub entry: Option<DesktopEntry>,
}

impl AppCandidate {
    /// The candidate for the file `path` of an applications directory,
    /// whose text is `text` where it was read: a desktop file's text is
    /// parsed with `DesktopEntry::parse_str` (see `entry_of_file`).
    pub fn from_file(path: &str, text: Option<&str>, lang: Option<&str>, search_path: Option<&str>) -> (c: AppCandidate)
        ensures
            c.path@ == path@,
            entry_of_file(c.entry, path@, opt_str_view(text), opt_str_view(lang), is_desktop_path(path@)),
    {
        let desktop = is_desktop_file(path);
        let entry = match text {
            Some(t) => if desktop {
                DesktopEntry::parse_str(t, path, lang, search_path)
            } else {
                None
            },
            None => None,
        };
        AppCandidate { path: path.to_owned(), entry }
    }
}

/// The applications listed among the candidates, in the order found: a
/// `.desktop` file whose name was not listed before and whose entry is
/// shown in `labwc-rs`. `seen` holds the names listed so far.
pub open spec fn select_applications(c: Seq<AppCandidate>, seen: Seq<Seq<char>>) -> Seq<EntryView>
    decreases c.len(),
{
    if c.len() == 0 {
        Seq::empty()
    } else {
        let x = c[0];
        let name = remembered_name(x.path@);
        if !is_desktop_path(x.path@) || seen.contains(name) {
            select_applications(c.drop_first(), seen)
        } else {
            match x.entry {
                Some(e) => if shown_in_spec(e.view_of(), "labwc-rs"@) {
                    seq![e.view_of()] + select_applications(c.drop_first(), seen.push(name))
                } else {
                    select_applications(c.drop_first(), seen)
                },
                None => select_applications(c.drop_first(), seen),
            }
        }
    }
}

/// The locale rank of an application: 0 where its displayed name comes
/// from a `Name[..]` key for one of the user's locales (it differs from the
/// plain `Name`), 1 otherwise.
pub open spec fn locale_rank(e: EntryView) -> int {
    if e.locale_name != e.name { 0 } else { 1 }
}

/// The category priority of an application: 0 for the kinds the panel
/// pins (terminal emulators, web browsers and file managers, see
/// `is_pinned_kind`), 1 for every other application.
pub open spec fn category_rank(e: EntryView) -> int {
    if is_pinned_kind(e) { 0 } else { 1 }
}

/// `a` goes after `b`: by locale rank, then category priority, then
/// lowercased name, `a` comes later.
pub open spec fn app_after(a: EntryView, b: EntryView) -> bool {
    ||| locale_rank(b) < locale_rank(a)
    ||| locale_rank(b) == locale_rank(a) && category_rank(b) < category_rank(a)
    ||| locale_rank(b) == locale_rank(a) && category_rank(b) == category_rank(a) && seq_lt(
        lowercase_of(b.name),
        lowercase_of(a.name),
    )
}

/// `x` inserted into `s` before the first entry it does not go after.
pub open spec fn insert_app(s: Seq<EntryView>, x: EntryView) -> Seq<EntryView>
    decreases s.len(),
{
    if s.len() == 0 {
        seq![x]
    } else if app_after(s[0], x) {
        seq![x] + s
    } else {
        seq![s[0]] + insert_app(s.drop_first(), x)
    }
}

/// `s` sorted by locale rank, then category priority, then lowercased
/// name, equal keys keeping their order.
pub open spec fn sort_apps(s: Seq<EntryView>) -> Seq<EntryView>
    decreases s.len(),
{
    if s.len() == 0 {
        s
    } else {
        insert_app(sort_apps(s.drop_last()), s.last())
    }
}

proof fn lemma_insert_app_at(s: Seq<EntryView>, x: EntryView, j: int)
    requires
        0 <= j <= s.len(),
        forall|k: int| 0 <= k < j ==> !app_after(#[trigger] s[k], x),
        j == s.len() || app_after(s[j], x),
    ensures
        insert_app(s, x) == s.insert(j, x),
    decreases j,
{
    if j == 0 {
        if s.len() == 0 {
            assert(s.insert(0, x) =~= seq![x]);
        } else {
            assert(s.insert(0, x) =~= seq![x] + s);
        }
    } else {
        let t = s.drop_first();
        assert forall|k: int| 0 <= k < j - 1 implies !app_after(#[trigger] t[k], x) by {
            assert(t[k] == s[k + 1]);
        }
        lemma_insert_app_at(t, x, j - 1);
        assert(s.insert(j, x) =~= seq![s[0]] + t.insert(j - 1, x));
    }
}

pub open spec fn apps_view(s: Seq<DesktopEntry>) -> Seq<EntryView> {
    s.map_values(|e: DesktopEntry| e.view_of())
}

fn holds_name(seen: &Vec<String>, s: &str) -> (b: bool)
    ensures
        b == seen@.map_values(|x: String| x@).contains(s@),
{
    let ghost l = seen@.map_values(|x: String| x@);
    let mut i: usize = 0;
    while i < seen.len()
        invariant
            i <= seen.len(),
            l == seen@.map_values(|x: String| x@),
            forall|j: int| 0 <= j < i ==> l[j] != s@,
        decreases seen.len() - i,
    {
        if crate::text::str_eq(seen[i].as_str(), s) {
            assert(l[i as int] == s@);
            return true;
        }
        i = i + 1;
    }
    false
}

/// The applications to list among the desktop files found in the
/// applications directories (listed in the order searched): see
/// `select_applications`; sorted by locale rank (entries with a name for
/// the user's locale first), then category priority (terminal emulators,
/// web browsers and file managers first), then lowercased name.
pub fn scan_applications(found: Vec<AppCandidate>) -> (r: Vec<DesktopEntry>)
    ensures
        apps_view(r@) == sort_apps(select_applications(found@, Seq::empty())),
{
    let ghost all = found@;
    let mut rest = found;
    let mut seen: Vec<String> = Vec::new();
    let mut picked: Vec<DesktopEntry> = Vec::new();
    let ghost mut k: int = 0;
    assert(all.skip(0) =~= all);
    assert(seen@.map_values(|x: String| x@) =~= Seq::<Seq<char>>::empty());
    assert(apps_view(picked@) + select_applications(all, Seq::empty()) =~= select_applications(
        all,
        Seq::empty(),
    ));
    while rest.len() > 0
        invariant
            0 <= k <= all.len(),
            rest@.len() + k == all.len(),
            rest@ == all.skip(k),
            select_applications(all, Seq::empty()) == apps_view(picked@) + select_applications(
                all.skip(k),
                seen@.map_values(|x: String| x@),
            ),
        decreases rest.len(),
    {
        let ghost tail = all.skip(k);
        let ghost before = apps_view(picked@);
        let ghost seen0 = seen@.map_values(|x: String| x@);
        let c = rest.remove(0);
        proof {
            assert(c == tail[0]);
            assert(rest@ =~= all.skip(k + 1));
            assert(tail.drop_first() =~= all.skip(k + 1));
            k = k + 1;
        }
        if !is_desktop_file(c.path.as_str()) {
            continue;
        }
        let name = match crate::probe::path_file_name(c.path.as_str()) {
            Some(n) => n,
            None => String::new(),
        };
        if holds_name(&seen, name.as_str()) {
            continue;
        }
        match c.entry {
            Some(e) => {
                if !e.should_show_in("labwc-rs") {
                    continue;
                }
                let ghost ev = e.view_of();
                seen.push(name);
                picked.push(e);
                proof {
                    assert(seen@.map_values(|x: String| x@) =~= seen0.push(remembered_name(tail[0].path@)));
                    assert(apps_view(picked@) =~= before.push(ev));
                    assert(before + (seq![ev] + select_applications(
                        all.skip(k),
                        seen@.map_values(|x: String| x@),
                    )) =~= apps_view(picked@) + select_applications(
                        all.skip(k),
                        seen@.map_values(|x: String| x@),
                    ));
                }
            },
            None => {},
        }
    }
    assert(all.skip(k).len() == 0);
    assert(apps_view(picked@) + Seq::<EntryView>::empty() =~= apps_view(picked@));
    sorted_apps(picked)
}

fn locale_rank_of(e: &DesktopEntry) -> (r: u8)
    ensures
        r == locale_rank(e.view_of()),
{
    if crate::text::str_eq(e.locale_name.as_str(), e.name.as_str()) { 1 } else { 0 }
}

fn category_rank_of(e: &DesktopEntry) -> (r: u8)
    ensures
        r == category_rank(e.view_of()),
{
    if is_pinned_entry(e) { 0 } else { 1 }
}

/// `a` goes after `b` in the application order.
fn entry_after(a: &DesktopEntry, b: &DesktopEntry) -> (r: bool)
    ensures
        r == app_after(a.view_of(), b.view_of()),
{
    let (la, lb) = (locale_rank_of(a), locale_rank_of(b));
    if la != lb {
        return lb < la;
    }
    let (ca, cb) = (category_rank_of(a), category_rank_of(b));
    if ca != cb {
        return cb < ca;
    }
    let na = to_lowercase(a.name.as_str());
    let nb = to_lowercase(b.name.as_str());
    str_lt(nb.as_str(), na.as_str())
}

/// `v` in the application order (see `app_after`).
fn sorted_apps(v: Vec<DesktopEntry>) -> (r: Vec<DesktopEntry>)
    ensures
        apps_view(r@) == sort_apps(apps_view(v@)),
{
    let ghost all = apps_view(v@);
    let mut rest = v;
    let mut out: Vec<DesktopEntry> = Vec::new();
    let ghost mut k: int = 0;
    assert(all.take(0) =~= Seq::<EntryView>::empty());
    assert(apps_view(out@) =~= Seq::<EntryView>::empty());
    while rest.len() > 0
        invariant
            0 <= k <= all.len(),
            rest@.len() + k == all.len(),
            apps_view(rest@) == all.skip(k),
            apps_view(out@) == sort_apps(all.take(k)),
        decreases rest.len(),
    {
        let ghost before = apps_view(out@);
        let ghost old_rest = rest@;
        let x = rest.remove(0);
        proof {
            assert(apps_view(old_rest)[0] == all.skip(k)[0]);
            assert(x.view_of() == all[k]);
            assert forall|m: int| 0 <= m < rest@.len() implies apps_view(rest@)[m] == all.skip(k + 1)[m] by {
                assert(rest@[m] == old_rest[m + 1]);
                assert(apps_view(old_rest)[m + 1] == all.skip(k)[m + 1]);
            }
            assert(apps_view(rest@) =~= all.skip(k + 1));
        }
        let mut j: usize = 0;
        while j < out.len() && !entry_after(&out[j], &x)
            invariant
                j <= out.len(),
                before == apps_view(out@),
                forall|m: int| 0 <= m < j ==> !app_after(#[trigger] before[m], x.view_of()),
            decreases out.len() - j,
        {
            j = j + 1;
        }
        proof {
            lemma_insert_app_at(before, x.view_of(), j as int);
            assert(all.take(k + 1).drop_last() =~= all.take(k));
        }
        out.insert(j, x);
        proof {
            assert(apps_view(out@) =~= before.insert(j as int, all[k]));
            k = k + 1;
        }
    }
    assert(all.take(k) =~= all);
    out
}

/// The directories searched for applications, in order: `applications`
/// under the user's data directory (`~/.local/share` where unknown), then
/// under each directory of `XDG_DATA_DIRS` (`/usr/local/share:/usr/share`
/// where unset).
pub fn application_dirs(data_home: Option<&str>, data_dirs: Option<&str>) -> (r: Vec<String>)
    ensures
        r@.map_values(|s: String| s@) == seq![
            joined_path(
                match data_home {
                    Some(h) => h@,
                    None => "~/.local/share"@,
                },
                "applications"@,
            ),
        ] + split_all(
            match data_dirs {
                Some(d) => d@,
                None => "/usr/local/share:/usr/share"@,
            },
            ':',
        ).map_values(|d: Seq<char>| joined_path(d, "applications"@)),
{
    let home = match data_home {
        Some(h) => h,
        None => "~/.local/share",
    };
    let dirs = match data_dirs {
        Some(d) => d,
        None => "/usr/local/share:/usr/share",
    };
    let mut out: Vec<String> = Vec::new();
    out.push(path_join(home, "applications"));
    let ghost head = out@.map_values(|s: String| s@);
    let ghost pieces = split_all(dirs@, ':');
    let ghost sys = pieces.map_values(|d: Seq<char>| joined_path(d, "applications"@));
    let v = chars_of(dirs);
    let mut pos: usize = 0;
    let mut done = false;
    let ghost mut k: int = 0;
    assert(v@.subrange(0, v@.len() as int) =~= v@);
    assert(head + sys.take(0) =~= head);
    while !done
        invariant
            pos <= v.len(),
            v@ == dirs@,
            0 <= k,
            !done ==> k < pieces.len() && split_all(v@.subrange(pos as int, v@.len() as int), ':')
                == pieces.skip(k),
            done ==> k == pieces.len(),
            out@.map_values(|s: String| s@) == head + sys.take(k),
            sys == pieces.map_values(|d: Seq<char>| joined_path(d, "applications"@)),
        decreases (if done { 0 } else { v.len() - pos + 1 }),
    {
        let ghost rest = v@.subrange(pos as int, v@.len() as int);
        let ghost before = out@.map_values(|s: String| s@);
        let end = match find_char_in(&v, pos, v.len(), ':') {
            Some(i) => {
                proof {
                    lemma_find_char_props(rest, ':');
                    assert(rest.take(i as int) =~= v@.subrange(pos as int, pos + i));
                    assert(rest.skip(i + 1) =~= v@.subrange(pos + i + 1, v@.len() as int));
                    lemma_split_all_nonempty(rest.skip(i + 1), ':');
                }
                pos + i
            },
            None => v.len(),
        };
        let dir = string_of(&v, pos, end);
        proof {
            assert(pieces.skip(k)[0] == dir@);
            assert(pieces[k] == dir@);
        }
        let joined = path_join(dir.as_str(), "applications");
        let ghost jv = joined@;
        out.push(joined);
        proof {
            assert(sys[k] == joined_path(pieces[k], "applications"@));
            assert(out@[out@.len() - 1]@ == jv);
            assert(sys.take(k + 1) =~= sys.take(k).push(sys[k]));
            assert(out@.map_values(|s: String| s@) =~= before.push(sys[k]));
            assert(pieces.skip(k).drop_first() =~= pieces.skip(k + 1));
            k = k + 1;
        }
        if end == v.len() {
            proof {
                assert(pieces.skip(k - 1).len() == 1);
            }
            done = true;
        } else {
            pos = end + 1;
        }
    }
    proof {
        assert(sys.take(k) =~= sys);
        assert(head =~= seq![joined_path(home@, "applications"@)]);
    }
    out
}

/// No application goes after a later one (see `app_after`).
pub open spec fn apps_ordered(s: Seq<EntryView>) -> bool {
    forall|i: int, j: int| 0 <= i < j < s.len() ==> !app_after(#[trigger] s[i], #[trigger] s[j])
}

proof fn lemma_app_after_order(a: EntryView, b: EntryView, c: EntryView)
    ensures
        app_after(a, b) && app_after(b, c) ==> app_after(a, c),
        !(app_after(a, b) && app_after(b, a)),
{
    lemma_seq_lt_asymmetric(lowercase_of(a.name), lowercase_of(b.name));
    if app_after(a, b) && app_after(b, c) && locale_rank(a) == locale_rank(c) && category_rank(a)
        == category_rank(c) {
        lemma_seq_lt_transitive(lowercase_of(c.name), lowercase_of(b.name), lowercase_of(a.name));
    }
}

proof fn lemma_insert_app_sorted(s: Seq<EntryView>, x: EntryView)
    requires
        apps_ordered(s),
    ensures
        apps_ordered(insert_app(s, x)),
        insert_app(s, x).to_multiset() == s.to_multiset().insert(x),
    decreases s.len(),
{
    broadcast use vstd::seq_lib::group_to_multiset_ensures, vstd::multiset::group_multiset_axioms;
    let r = insert_app(s, x);
    if s.len() == 0 {
        assert(r =~= seq![x]);
        assert(seq![x] =~= Seq::<EntryView>::empty().push(x));
    } else if app_after(s[0], x) {
        assert(r == seq![x] + s);
        vstd::seq_lib::lemma_multiset_commutative(seq![x], s);
        assert(seq![x] =~= Seq::<EntryView>::empty().push(x));
        assert forall|i: int, j: int| 0 <= i < j < r.len() implies !app_after(#[trigger] r[i], #[trigger] r[j]) by {
            if i == 0 {
                lemma_app_after_order(s[0], x, r[j]);
                if j - 1 > 0 {
                    assert(!app_after(s[0], s[j - 1]));
                }
            } else {
                assert(r[i] == s[i - 1] && r[j] == s[j - 1]);
            }
        }
    } else {
        let t = s.drop_first();
        assert(apps_ordered(t)) by {
            assert forall|i: int, j: int| 0 <= i < j < t.len() implies !app_after(#[trigger] t[i], #[trigger] t[j]) by {
                assert(t[i] == s[i + 1] && t[j] == s[j + 1]);
            }
        }
        lemma_insert_app_sorted(t, x);
        let u = insert_app(t, x);
        assert(r == seq![s[0]] + u);
        vstd::seq_lib::lemma_multiset_commutative(seq![s[0]], u);
        vstd::seq_lib::lemma_multiset_commutative(seq![s[0]], t);
        assert(s =~= seq![s[0]] + t);
        assert forall|i: int, j: int| 0 <= i < j < r.len() implies !app_after(#[trigger] r[i], #[trigger] r[j]) by {
            if i == 0 {
                let y = u[j - 1];
                assert(u.to_multiset().count(y) > 0);
                if y != x {
                    assert(t.to_multiset().count(y) > 0);
                    assert(t.contains(y));
                    let m = choose|m: int| 0 <= m < t.len() && t[m] == y;
                    assert(s[m + 1] == y);
                }
            } else {
                assert(r[i] == u[i - 1] && r[j] == u[j - 1]);
            }
        }
    }
}

/// Scanning orders the applications by locale rank, category priority and
/// lowercased name, and the order holds
/// every application chosen, each once.
pub proof fn lemma_sort_apps_ordered(s: Seq<EntryView>)
    ensures
        apps_ordered(sort_apps(s)),
        sort_apps(s).to_multiset() == s.to_multiset(),
    decreases s.len(),
{
    broadcast use vstd::seq_lib::group_to_multiset_ensures, vstd::multiset::group_multiset_axioms;
    if s.len() > 0 {
        lemma_sort_apps_ordered(s.drop_last());
        lemma_insert_app_sorted(sort_apps(s.drop_last()), s.last());
        assert(s =~= s.drop_last().push(s.last()));
    }
}

} // verus!
