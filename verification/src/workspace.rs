//! Virtual workspace management: named workspaces and switching.
use vstd::prelude::*;
use crate::geometry::fits_i32;

verus! {

/// A named virtual workspace.
#[derive(Debug, Clone)]
pub struct Workspace {
    pub name: String,
    pub output_name: Option<String>,
}

impl Workspace {
    /// A workspace with the given name on no particular output.
    pub fn new(name: &str) -> (w: Workspace)
        ensures
            w.name@ == name@,
            w.output_name.is_none(),
    {
        Workspace { name: name.to_owned(), output_name: None }
    }
}

/// The set of workspaces, the current one and the previously current one.
pub struct WorkspaceManager {
    pub workspaces: Vec<Workspace>,
    pub current_idx: usize,
    pub last_idx: usize,
}

/// The index reached by moving `delta` steps from `cur` among `n`
/// workspaces, wrapping around at both ends.
pub open spec fn relative_index(cur: int, delta: int, n: int) -> int {
    (cur + delta) % n
}

/// The index of the first workspace named `name`, if any.
pub open spec fn first_named(ws: Seq<Workspace>, name: Seq<char>) -> Option<int> {
    if exists|i: int| 0 <= i < ws.len() && ws[i].name@ == name {
        Some(
            choose|i: int|
                0 <= i < ws.len() && ws[i].name@ == name && forall|j: int|
                    0 <= j < i ==> ws[j].name@ != name,
        )
    } else {
        None
    }
}

impl WorkspaceManager {
    /// There is at least one workspace and both indices name one.
    pub open spec fn wf(&self) -> bool {
        &&& self.workspaces.len() > 0
        &&& self.current_idx < self.workspaces.len()
        &&& self.last_idx < self.workspaces.len()
    }

    /// Four workspaces named "1" to "4"; the first is current.
    pub fn new() -> (m: WorkspaceManager)
        ensures
            m.wf(),
            m.workspaces.len() == 4,
            m.workspaces[0].name@ == "1"@,
            m.workspaces[1].name@ == "2"@,
            m.workspaces[2].name@ == "3"@,
            m.workspaces[3].name@ == "4"@,
            forall|i: int| 0 <= i < 4 ==> (#[trigger] m.workspaces[i]).output_name.is_none(),
            m.current_idx == 0,
            m.last_idx == 0,
    {
        let mut ws: Vec<Workspace> = Vec::new();
        ws.push(Workspace::new("1"));
        ws.push(Workspace::new("2"));
        ws.push(Workspace::new("3"));
        ws.push(Workspace::new("4"));
        WorkspaceManager { workspaces: ws, current_idx: 0, last_idx: 0 }
    }

    /// The current workspace.
    pub fn current(&self) -> (w: &Workspace)
        requires
            self.wf(),
        ensures
            *w == self.workspaces[self.current_idx as int],
    {
        &self.workspaces[self.current_idx]
    }

    /// The previously current workspace.
    pub fn last(&self) -> (w: &Workspace)
        requires
            self.wf(),
        ensures
            *w == self.workspaces[self.last_idx as int],
    {
        &self.workspaces[self.last_idx]
    }

    /// Switch to the first workspace named `name`; returns whether there
    /// was one. On a switch the previously current workspace becomes the
    /// last one.
    pub fn switch_to(&mut self, name: &str) -> (found: bool)
        ensures
            old(self).wf() ==> final(self).wf(),
            final(self).workspaces == old(self).workspaces,
            found == first_named(old(self).workspaces@, name@).is_some(),
            found ==> final(self).current_idx == first_named(old(self).workspaces@, name@).unwrap()
                && final(self).last_idx == old(self).current_idx,
            !found ==> final(self).current_idx == old(self).current_idx && final(self).last_idx
                == old(self).last_idx,
    {
        let mut i: usize = 0;
        while i < self.workspaces.len()
            invariant
                self.workspaces == old(self).workspaces,
                self.current_idx == old(self).current_idx,
                self.last_idx == old(self).last_idx,
                i <= self.workspaces.len(),
                forall|j: int| 0 <= j < i ==> self.workspaces[j].name@ != name@,
            decreases self.workspaces.len() - i,
        {
            if crate::text::str_eq(self.workspaces[i].name.as_str(), name) {
                let ghost ws = self.workspaces@;
                assert(exists|k: int| 0 <= k < ws.len() && ws[k].name@ == name@);
                let ghost c = choose|k: int|
                    0 <= k < ws.len() && ws[k].name@ == name@ && forall|j: int|
                        0 <= j < k ==> ws[j].name@ != name@;
                assert(c == i as int) by {
                    if c < i {
                        assert(ws[c].name@ != name@);
                    }
                    if c > i {
                        assert(ws[i as int].name@ != name@);
                    }
                }
                self.last_idx = self.current_idx;
                self.current_idx = i;
                return true;
            }
            i = i + 1;
        }
        false
    }

    /// Move `delta` workspaces forward (backward when negative), wrapping
    /// around at both ends. The current index is taken as an `i32`, as
    /// `as` casts it.
    pub fn switch_relative(&mut self, delta: i32)
        requires
            old(self).workspaces.len() > 0,
            old(self).workspaces.len() <= i32::MAX,
            fits_i32((old(self).current_idx as i32) + delta),
        ensures
            old(self).wf() ==> final(self).wf(),
            final(self).current_idx < final(self).workspaces.len(),
            final(self).workspaces == old(self).workspaces,
            final(self).last_idx == old(self).current_idx,
            final(self).current_idx == relative_index(
                (old(self).current_idx as i32) as int,
                delta as int,
                old(self).workspaces.len() as int,
            ),
    {
        let n = self.workspaces.len() as i64;
        let c: i32 = self.current_idx as i32;
        let x = c as i64 + delta as i64;
        let new: i64 = if x >= 0 {
            x % n
        } else {
            let r = (-x) % n;
            if r == 0 {
                0
            } else {
                n - r
            }
        };
        proof {
            lemma_euclid_rem(x as int, n as int);
        }
        self.last_idx = self.current_idx;
        self.current_idx = new as usize;
    }
}

/// The non-negative remainder, computed from the remainder of `-x` when
/// `x` is negative.
pub proof fn lemma_euclid_rem(x: int, n: int)
    requires
        n > 0,
    ensures
        x < 0 ==> ((-x) % n == 0 ==> x % n == 0),
        x < 0 ==> ((-x) % n != 0 ==> x % n == n - (-x) % n),
{
    if x < 0 {
        let q = (-x) / n;
        let r = (-x) % n;
        vstd::arithmetic::div_mod::lemma_fundamental_div_mod(-x, n);
        assert(-x == n * q + r);
        if r == 0 {
            assert(x == (-q) * n) by (nonlinear_arith)
                requires
                    -x == n * q + r,
                    r == 0,
            ;
            vstd::arithmetic::div_mod::lemma_mod_multiples_basic(-q, n);
        } else {
            assert(0 <= r < n) by {
                vstd::arithmetic::div_mod::lemma_mod_bound(-x, n);
            }
            assert(x == (-q - 1) * n + (n - r)) by (nonlinear_arith)
                requires
                    -x == n * q + r,
            ;
            vstd::arithmetic::div_mod::lemma_fundamental_div_mod_converse(x, n, -q - 1, n - r);
        }
    }
}

/// Moving `delta` workspaces and then `-delta` workspaces returns to the
/// workspace where one started.
pub proof fn lemma_switch_relative_undo(cur: int, delta: int, n: int)
    requires
        n > 0,
        0 <= cur < n,
    ensures
        relative_index(relative_index(cur, delta, n), -delta, n) == cur,
{
    vstd::arithmetic::div_mod::lemma_add_mod_noop(cur + delta, -delta, n);
    vstd::arithmetic::div_mod::lemma_mod_twice(cur + delta, n);
    vstd::arithmetic::div_mod::lemma_small_mod(cur as nat, n as nat);
    assert((cur + delta) % n % n == (cur + delta) % n);
    assert(((cur + delta) % n + (-delta) % n) % n == (cur + delta + -delta) % n);
    vstd::arithmetic::div_mod::lemma_add_mod_noop((cur + delta) % n, -delta, n);
    assert(((cur + delta) % n % n + (-delta) % n) % n == ((cur + delta) % n + -delta) % n);
}

/// Moving by the number of workspaces, in either direction, comes back to
/// the same workspace.
pub proof fn lemma_switch_relative_full_cycle(cur: int, n: int)
    requires
        n > 0,
        0 <= cur < n,
    ensures
        relative_index(cur, n, n) == cur,
        relative_index(cur, -n, n) == cur,
{
    vstd::arithmetic::div_mod::lemma_mod_add_multiples_vanish(cur, n);
    vstd::arithmetic::div_mod::lemma_mod_sub_multiples_vanish(cur, n);
    vstd::arithmetic::div_mod::lemma_small_mod(cur as nat, n as nat);
}

} // verus!
