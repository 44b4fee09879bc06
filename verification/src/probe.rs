//! Probes of the file system whose answers depend on the machine.
use vstd::prelude::*;
use crate::text::{opt_view, chars_of, string_of};

verus! {

/// Whether a path names an existing file system entry.
///
/// Trusted: calls `std::path::Path::exists`. The answer depends on what
/// is on disk, so the contract states nothing of it.
#[verifier::external_body]
pub(crate) fn path_exists(path: &str) -> bool {
    std::path::Path::new(path).exists()
}

/// Whether a path names an existing regular file.
///
/// Trusted: calls `std::path::Path::is_file`. The answer depends on what
/// is on disk, so the contract states nothing of it.
#[verifier::external_body]
pub(crate) fn path_is_file(path: &str) -> bool {
    std::path::Path::new(path).is_file()
}

/// The path `rest` appended to `base`, as `std::path::Path::join` forms it
/// on Unix (`PathBuf::push`): an absolute `rest` (one that starts with
/// `/`) replaces `base`; otherwise a `/` goes between the two unless
/// `base` is empty or already ends in one.
#[verifier::opaque]
pub open spec fn joined_path(base: Seq<char>, rest: Seq<char>) -> Seq<char> {
    if rest.len() > 0 && rest[0] == '/' {
        rest
    } else if base.len() > 0 && base.last() != '/' {
        base + seq!['/'] + rest
    } else {
        base + rest
    }
}

/// Joins two paths (see `joined_path`).
pub(crate) fn path_join(base: &str, rest: &str) -> (r: String)
    ensures
        r@ == joined_path(base@, rest@),
{
    reveal(joined_path);
    let mut v = chars_of(base);
    let mut tail = chars_of(rest);
    if tail.len() > 0 && tail[0] == '/' {
        return string_of(&tail, 0, tail.len());
    }
    if v.len() > 0 && v[v.len() - 1] != '/' {
        v.push('/');
    }
    v.append(&mut tail);
    assert(v@.subrange(0, v@.len() as int) =~= v@);
    string_of(&v, 0, v.len())
}

/// The last component of a path, as `std::path::Path::file_name` finds it.
pub uninterp spec fn file_name_of(path: Seq<char>) -> Option<Seq<char>>;

/// The index of the last `.` in `n`, or -1 where there is none.
pub open spec fn last_dot(n: Seq<char>) -> int
    decreases n.len(),
{
    if n.len() == 0 {
        -1
    } else if n.last() == '.' {
        n.len() - 1
    } else {
        last_dot(n.drop_last())
    }
}

/// The extension of a path, as `std::path::Path::extension` documents it:
/// none where there is no file name, none where the file name has no `.`
/// or only a leading one, else the part of the file name after its last
/// `.`.
#[verifier::opaque]
pub open spec fn extension_of(path: Seq<char>) -> Option<Seq<char>> {
    match file_name_of(path) {
        Some(n) => if last_dot(n) <= 0 {
            None
        } else {
            Some(n.skip(last_dot(n) + 1))
        },
        None => None,
    }
}

/// Where no `.` follows index `i` but one stands just before it (or `i` is
/// 0), the last `.` is at `i - 1`.
proof fn lemma_last_dot_at(n: Seq<char>, i: int)
    requires
        0 <= i <= n.len(),
        forall|j: int| i <= j < n.len() ==> n[j] != '.',
        i == 0 || n[i - 1] == '.',
    ensures
        last_dot(n) == i - 1,
    decreases n.len(),
{
    if n.len() > 0 && n.len() > i {
        assert forall|j: int| i <= j < n.drop_last().len() implies n.drop_last()[j] != '.' by {
            assert(n.drop_last()[j] == n[j]);
        }
        if i > 0 {
            assert(n.drop_last()[i - 1] == n[i - 1]);
        }
        lemma_last_dot_at(n.drop_last(), i);
    }
}

/// The extension of a path's file name (see `extension_of`), taken from
/// the file name that `path_file_name` finds.
pub(crate) fn path_extension(path: &str) -> (r: Option<String>)
    ensures
        opt_view(r) == extension_of(path@),
{
    reveal(extension_of);
    let name = match path_file_name(path) {
        Some(n) => n,
        None => return None,
    };
    let v = chars_of(name.as_str());
    let mut i: usize = v.len();
    while i > 0
        invariant
            i <= v.len(),
            forall|j: int| i <= j < v.len() ==> v@[j] != '.',
        ensures
            i <= v.len(),
            forall|j: int| i <= j < v.len() ==> v@[j] != '.',
            i == 0 || v@[i - 1] == '.',
        decreases i,
    {
        if v[i - 1] == '.' {
            break;
        }
        i = i - 1;
    }
    proof {
        lemma_last_dot_at(v@, i as int);
    }
    if i <= 1 {
        None
    } else {
        let e = string_of(&v, i, v.len());
        assert(e@ =~= v@.skip(i as int));
        Some(e)
    }
}

/// The file name of a path.
///
/// Trusted: calls `std::path::Path::file_name`. The result is a function
/// of the path alone, named `file_name_of`; a part of a UTF-8 path is
/// UTF-8, so the conversion back to text loses nothing.
#[verifier::external_body]
pub(crate) fn path_file_name(path: &str) -> (r: Option<String>)
    ensures
        opt_view(r) == file_name_of(path@),
{
    match std::path::Path::new(path).file_name() {
        Some(n) => Some(n.to_string_lossy().into_owned()),
        None => None,
    }
}

} // verus!
