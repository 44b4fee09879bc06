//! String helpers shared across the compositor.
use vstd::prelude::*;
use crate::text::{all_ws, chars_of, char_is_ws, str_eq, string_of, find_char_in, lemma_find_char_props};
use crate::xdg::entry::{words, words_in, strs_view};
use crate::xdg::autostart::{split_all, lemma_split_all_nonempty};
use crate::probe::{path_join, joined_path, path_is_file, path_exists};
use crate::text::opt_view;

verus! {

/// Check if a string is empty or consists of white space only.
pub fn string_is_blank(s: &str) -> (b: bool)
    ensures
        b == all_ws(s@),
{
    let v = chars_of(s);
    let mut i: usize = 0;
    while i < v.len()
        invariant
            i <= v.len(),
            v@ == s@,
            forall|j: int| 0 <= j < i ==> crate::text::is_ws(#[trigger] v@[j]),
        decreases v.len() - i,
    {
        if !char_is_ws(v[i]) {
            return false;
        }
        i = i + 1;
    }
    true
}

/// Compare two strings for equality.
pub fn string_equal(a: &str, b: &str) -> (r: bool)
    ensures
        r == (a@ == b@),
{
    str_eq(a, b)
}

/// Duplicate a string, returning an empty string for `None`.
pub fn xstrdup(s: Option<&str>) -> (r: String)
    ensures
        r@ == (match s {
            Some(x) => x@,
            None => Seq::<char>::empty(),
        }),
{
    match s {
        Some(x) => x.to_owned(),
        None => String::new(),
    }
}

/// Replace the contents of `dst` with a copy of `src`.
pub fn xstrdup_replace(dst: &mut String, src: &str)
    ensures
        final(dst)@ == src@,
{
    *dst = src.to_owned();
}

/// The words of a command line: the program, then its arguments.
pub fn command_words(cmd: &str) -> (r: Vec<String>)
    ensures
        strs_view(r@) == words(cmd@),
{
    let v = chars_of(cmd);
    let ws = words_in(&v);
    let mut r: Vec<String> = Vec::new();
    let mut i: usize = 0;
    while i < ws.len()
        invariant
            i <= ws.len(),
            v@ == cmd@,
            ws@.map_values(|w: Vec<char>| w@) == words(v@),
            r@.len() == i,
            forall|j: int| 0 <= j < i ==> (#[trigger] r@[j])@ == ws@[j]@,
        decreases ws.len() - i,
    {
        let w = &ws[i];
        let s = string_of(w, 0, w.len());
        assert(w@.subrange(0, w@.len() as int) =~= w@);
        r.push(s);
        i = i + 1;
    }
    assert(strs_view(r@) =~= ws@.map_values(|w: Vec<char>| w@));
    r
}

/// The pieces of the search path `paths`, one a step, as `str::split(':')`
/// gives them: the piece at `pos` and where the next begins.
fn next_piece(v: &Vec<char>, pos: usize) -> (r: (String, Option<usize>))
    requires
        pos <= v.len(),
    ensures
        split_all(v@.subrange(pos as int, v@.len() as int), ':') == seq![r.0@] + match r.1 {
            Some(n) => split_all(v@.subrange(n as int, v@.len() as int), ':'),
            None => Seq::<Seq<char>>::empty(),
        },
        r.1 matches Some(n) ==> pos < n <= v.len(),
{
    let ghost rest = v@.subrange(pos as int, v@.len() as int);
    match find_char_in(v, pos, v.len(), ':') {
        Some(i) => {
            proof {
                lemma_find_char_props(rest, ':');
                assert(rest.take(i as int) =~= v@.subrange(pos as int, pos + i));
                assert(rest.skip(i + 1) =~= v@.subrange(pos + i + 1, v@.len() as int));
            }
            (string_of(v, pos, pos + i), Some(pos + i + 1))
        },
        None => {
            assert(seq![rest] + Seq::<Seq<char>>::empty() =~= seq![rest]);
            (string_of(v, pos, v.len()), None)
        },
    }
}

/// `rest` joined to each piece of the colon-separated list `dirs`, in
/// order.
pub fn join_each(dirs: &str, rest: &str) -> (r: Vec<String>)
    ensures
        strs_view(r@) == split_all(dirs@, ':').map_values(|d: Seq<char>| joined_path(d, rest@)),
{
    let v = chars_of(dirs);
    let ghost all = split_all(dirs@, ':');
    let ghost want = all.map_values(|d: Seq<char>| joined_path(d, rest@));
    let ghost mut k: int = 0;
    let mut out: Vec<String> = Vec::new();
    let mut pos: usize = 0;
    assert(v@.subrange(0, v@.len() as int) =~= v@);
    assert(all.skip(0) =~= all);
    loop
        invariant
            pos <= v.len(),
            v@ == dirs@,
            all == split_all(dirs@, ':'),
            want == all.map_values(|d: Seq<char>| joined_path(d, rest@)),
            0 <= k < all.len(),
            split_all(v@.subrange(pos as int, v@.len() as int), ':') == all.skip(k),
            strs_view(out@) == want.take(k),
        decreases v.len() - pos,
    {
        let ghost before = strs_view(out@);
        let (dir, next) = next_piece(&v, pos);
        proof {
            assert(all.skip(k).len() >= 1);
            assert(all.skip(k)[0] == dir@);
            assert(all[k] == dir@);
        }
        let j = path_join(dir.as_str(), rest);
        out.push(j);
        proof {
            assert(want[k] == joined_path(all[k], rest@));
            assert(want.take(k + 1) =~= want.take(k).push(want[k]));
            assert(strs_view(out@) =~= before.push(want[k]));
        }
        match next {
            Some(n) => {
                proof {
                    assert(all.skip(k).drop_first() =~= all.skip(k + 1));
                    lemma_split_all_nonempty(v@.subrange(n as int, v@.len() as int), ':');
                    k = k + 1;
                }
                pos = n;
            },
            None => {
                proof {
                    assert(all.skip(k).len() == 1);
                    assert(want.take(k + 1) =~= want);
                }
                return out;
            },
        }
    }
}

/// The position of the first true answer.
pub open spec fn first_true(a: Seq<bool>) -> Option<int>
    decreases a.len(),
{
    if a.len() == 0 {
        None
    } else if a[0] {
        Some(0)
    } else {
        match first_true(a.drop_first()) {
            Some(i) => Some(i + 1),
            None => None,
        }
    }
}

/// The first true answer of `a` is at `i`, or there is none when `i` is
/// the length, where every answer before `i` is false and the one at `i`
/// is true.
pub proof fn lemma_first_true_at(a: Seq<bool>, i: int)
    requires
        0 <= i <= a.len(),
        forall|j: int| 0 <= j < i ==> !a[j],
        i == a.len() || a[i],
    ensures
        first_true(a) == (if i == a.len() { None } else { Some(i) }),
{
    lemma_first_true(a, i);
}

proof fn lemma_first_true(a: Seq<bool>, i: int)
    requires
        0 <= i <= a.len(),
        forall|j: int| 0 <= j < i ==> !a[j],
        i == a.len() || a[i],
    ensures
        first_true(a) == (if i == a.len() { None } else { Some(i) }),
    decreases i,
{
    if i > 0 {
        let t = a.drop_first();
        assert forall|j: int| 0 <= j < i - 1 implies !t[j] by {
            assert(t[j] == a[j + 1]);
        }
        lemma_first_true(t, i - 1);
    }
}

proof fn lemma_first_true_range(a: Seq<bool>)
    ensures
        first_true(a) matches Some(i) ==> 0 <= i < a.len(),
    decreases a.len(),
{
    if a.len() > 0 && !a[0] {
        lemma_first_true_range(a.drop_first());
    }
}

/// Which of the candidates probed in order is taken: the first whose
/// answer is true, none where every answer is false.
pub fn first_existing(answers: &Vec<bool>) -> (r: Option<usize>)
    ensures
        r == match first_true(answers@) {
            Some(i) => Some(i as usize),
            None => None::<usize>,
        },
        r matches Some(i) ==> i < answers@.len() && answers@[i as int] && forall|j: int|
            0 <= j < i ==> !answers@[j],
        r is None ==> forall|j: int| 0 <= j < answers@.len() ==> !answers@[j],
{
    let mut i: usize = 0;
    while i < answers.len()
        invariant
            i <= answers@.len(),
            forall|j: int| 0 <= j < i ==> !answers@[j],
        decreases answers.len() - i,
    {
        if answers[i] {
            proof {
                lemma_first_true(answers@, i as int);
            }
            return Some(i);
        }
        i = i + 1;
    }
    proof {
        lemma_first_true(answers@, i as int);
    }
    None
}

/// The answers of probing `cands` in order, stopping at the first that
/// exists (with `files`, the first that is a regular file): each answer
/// but the last is false, and unless every candidate was probed the last
/// is true. What exists depends on the disk.
pub(crate) fn probe_in_order(cands: &Vec<String>, files: bool) -> (answers: Vec<bool>)
    ensures
        answers@.len() <= cands@.len(),
        forall|j: int| 0 <= j < answers@.len() - 1 ==> !answers@[j],
        answers@.len() < cands@.len() ==> answers@.len() > 0 && answers@.last(),
{
    let mut answers: Vec<bool> = Vec::new();
    let mut i: usize = 0;
    while i < cands.len()
        invariant
            i <= cands@.len(),
            answers@.len() == i,
            forall|j: int| 0 <= j < i ==> !answers@[j],
        decreases cands.len() - i,
    {
        let found = if files {
            path_is_file(cands[i].as_str())
        } else {
            path_exists(cands[i].as_str())
        };
        answers.push(found);
        if found {
            return answers;
        }
        i = i + 1;
    }
    answers
}

/// The candidate taken: the one at the first true answer.
pub open spec fn chosen(cands: Seq<Seq<char>>, answers: Seq<bool>) -> Option<Seq<char>> {
    match first_true(answers) {
        Some(i) => if i < cands.len() { Some(cands[i]) } else { None },
        None => None,
    }
}

/// The candidate at the first true answer.
pub(crate) fn take_chosen(cands: &Vec<String>, answers: &Vec<bool>) -> (r: Option<String>)
    requires
        answers@.len() <= cands@.len(),
    ensures
        opt_view(r) == chosen(strs_view(cands@), answers@),
{
    proof {
        lemma_first_true_range(answers@);
    }
    match first_existing(answers) {
        Some(i) => {
            let c = cands[i].clone();
            proof {
                lemma_first_true(answers@, i as int);
            }
            assert(strs_view(cands@).len() == cands@.len());
            assert(c@ == cands@[i as int]@);
            assert(strs_view(cands@)[i as int] == cands@[i as int]@);
            Some(c)
        },
        None => None,
    }
}

/// The candidates for an executable `name`: `dir/name` for each directory
/// `dir` of the search path `search_path` (the value of `PATH`), none where
/// it is unset.
pub fn executable_candidates(name: &str, search_path: Option<&str>) -> (r: Vec<String>)
    ensures
        strs_view(r@) == executable_candidates_spec(name@, search_path),
{
    match search_path {
        Some(sp) => join_each(sp, name),
        None => {
            let v: Vec<String> = Vec::new();
            assert(strs_view(v@) =~= Seq::<Seq<char>>::empty());
            v
        },
    }
}

/// The first of `executable_candidates(name, search_path)` that is a
/// file, probed in order. What is a file depends on the disk: the result
/// is the candidate chosen by the answers of the probes (see `chosen`).
pub fn find_executable(name: &str, search_path: Option<&str>) -> (r: Option<String>)
    ensures
        exists|answers: Seq<bool>|
            answers.len() <= executable_candidates_spec(name@, search_path).len()
                && opt_view(r) == chosen(executable_candidates_spec(name@, search_path), answers),
        r matches Some(p) ==> search_path matches Some(sp) && exists|d: Seq<char>|
            split_all(sp@, ':').contains(d) && p@ == joined_path(d, name@),
{
    let cands = executable_candidates(name, search_path);
    let answers = probe_in_order(&cands, true);
    let r = take_chosen(&cands, &answers);
    proof {
        lemma_chosen_is_candidate(strs_view(cands@), answers@);
        if r is Some {
            let p = r->0;
            let sp = search_path->0;
            let i = choose|i: int| 0 <= i < cands@.len() && strs_view(cands@)[i] == p@;
            let ds = split_all(sp@, ':');
            assert(ds.map_values(|d: Seq<char>| joined_path(d, name@))[i] == joined_path(ds[i], name@));
            assert(ds.contains(ds[i]));
        }
    }
    r
}

/// `executable_candidates` as a value.
pub open spec fn executable_candidates_spec(name: Seq<char>, search_path: Option<&str>) -> Seq<Seq<char>> {
    match search_path {
        Some(sp) => split_all(sp@, ':').map_values(|d: Seq<char>| joined_path(d, name)),
        None => Seq::<Seq<char>>::empty(),
    }
}

/// A chosen candidate is one of the candidates.
pub proof fn lemma_chosen_is_candidate(cands: Seq<Seq<char>>, answers: Seq<bool>)
    ensures
        chosen(cands, answers) matches Some(p) ==> exists|i: int| 0 <= i < cands.len() && cands[i] == p,
{
    lemma_first_true_range(answers);
    if let Some(i) = first_true(answers) {
        if i < cands.len() {
            assert(cands[i] == cands[i]);
        }
    }
}

/// The candidates for the configuration file `relative`: under the user's
/// configuration directory `config_home` where known, then under each
/// directory of `config_dirs` (`XDG_CONFIG_DIRS`, `/etc/xdg` where unset).
pub open spec fn config_candidates_spec(relative: Seq<char>, config_home: Option<&str>, config_dirs: Option<&str>) -> Seq<Seq<char>> {
    (match config_home {
        Some(h) => seq![joined_path(h@, relative)],
        None => Seq::<Seq<char>>::empty(),
    }) + split_all(
        match config_dirs {
            Some(x) => x@,
            None => "/etc/xdg"@,
        },
        ':',
    ).map_values(|d: Seq<char>| joined_path(d, relative))
}

/// The candidates for the configuration file `relative` (see
/// `config_candidates_spec`), in the order they are searched.
pub fn config_candidates(relative: &str, config_home: Option<&str>, config_dirs: Option<&str>) -> (r: Vec<String>)
    ensures
        strs_view(r@) == config_candidates_spec(relative@, config_home, config_dirs),
{
    let mut r: Vec<String> = Vec::new();
    match config_home {
        Some(h) => r.push(path_join(h, relative)),
        None => {},
    }
    let ghost head = strs_view(r@);
    let dirs = match config_dirs {
        Some(d) => d,
        None => "/etc/xdg",
    };
    let mut rest = join_each(dirs, relative);
    let ghost tail = strs_view(rest@);
    r.append(&mut rest);
    assert(strs_view(r@) =~= head + tail);
    r
}

/// The first existing configuration file `relative` among
/// `config_candidates(relative, config_home, config_dirs)`, probed in
/// order. What exists depends on the disk: the result is the candidate
/// chosen by the answers of the probes (see `chosen`).
pub fn resolve_config_path(relative: &str, config_home: Option<&str>, config_dirs: Option<&str>) -> (r: Option<String>)
    ensures
        exists|answers: Seq<bool>|
            answers.len() <= config_candidates_spec(relative@, config_home, config_dirs).len() && opt_view(r)
                == chosen(config_candidates_spec(relative@, config_home, config_dirs), answers),
        r matches Some(p) ==> exists|i: int|
            0 <= i < config_candidates_spec(relative@, config_home, config_dirs).len()
                && config_candidates_spec(relative@, config_home, config_dirs)[i] == p@,
{
    let cands = config_candidates(relative, config_home, config_dirs);
    let answers = probe_in_order(&cands, false);
    let r = take_chosen(&cands, &answers);
    proof {
        lemma_chosen_is_candidate(strs_view(cands@), answers@);
    }
    r
}

} // verus!
