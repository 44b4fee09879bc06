//! `xdg_toplevel_tag_manager_v1`: string tags on toplevel windows, for
//! session management, scripting and window grouping.
use vstd::prelude::*;
use std::collections::HashMap;
use vstd::hash_map::StringHashMap;

verus! {

/// The tags as text, by toplevel.
pub open spec fn tag_names(m: Map<u64, String>) -> Map<u64, Seq<char>> {
    Map::new(|k: u64| m.contains_key(k), |k: u64| m[k]@)
}

/// `reverse` is the inverse of `tags`: a toplevel has a tag exactly when
/// the tag names the toplevel.
pub open spec fn is_inverse(tags: Map<u64, Seq<char>>, reverse: Map<Seq<char>, u64>) -> bool {
    &&& forall|id: u64|
        #[trigger] tags.contains_key(id) ==> reverse.contains_key(tags[id]) && reverse[tags[id]] == id
    &&& forall|t: Seq<char>|
        #[trigger] reverse.contains_key(t) ==> tags.contains_key(reverse[t]) && tags[reverse[t]] == t
}

/// The tags and the inverse map after `id` is tagged `tag`: the previous
/// tag of `id` is dropped from the inverse map, the toplevel that `tag`
/// named (if any) loses its tag, then `id` and `tag` name each other.
pub open spec fn tagged(tags: Map<u64, Seq<char>>, reverse: Map<Seq<char>, u64>, id: u64, tag: Seq<char>) -> (
    Map<u64, Seq<char>>,
    Map<Seq<char>, u64>,
) {
    let r1 = if tags.contains_key(id) {
        reverse.remove(tags[id])
    } else {
        reverse
    };
    let t1 = tags.remove(id);
    let t2 = if r1.contains_key(tag) {
        t1.remove(r1[tag])
    } else {
        t1
    };
    (t2.insert(id, tag), r1.insert(tag, id))
}

/// Tagging keeps the inverse map the inverse of the tags.
pub proof fn lemma_tagged_keeps_inverse(
    tags: Map<u64, Seq<char>>,
    reverse: Map<Seq<char>, u64>,
    id: u64,
    tag: Seq<char>,
)
    requires
        is_inverse(tags, reverse),
    ensures
        is_inverse(tagged(tags, reverse, id, tag).0, tagged(tags, reverse, id, tag).1),
{
    let r1 = if tags.contains_key(id) {
        reverse.remove(tags[id])
    } else {
        reverse
    };
    let t1 = tags.remove(id);
    let t2 = if r1.contains_key(tag) {
        t1.remove(r1[tag])
    } else {
        t1
    };
    let nt = t2.insert(id, tag);
    let nr = r1.insert(tag, id);
    assert forall|a: u64| #[trigger] nt.contains_key(a) implies nr.contains_key(nt[a]) && nr[nt[a]] == a by {
        if a != id {
            let u = tags[a];
            assert(tags.contains_key(a));
            assert(reverse.contains_key(u) && reverse[u] == a);
            if u == tag {
                assert(r1.contains_key(tag) && r1[tag] == a);
            } else {
                if tags.contains_key(id) {
                    assert(tags[id] != u);
                }
                assert(r1.contains_key(u) && r1[u] == a);
            }
        }
    }
    assert forall|u: Seq<char>| #[trigger] nr.contains_key(u) implies nt.contains_key(nr[u]) && nt[nr[u]] == u by {
        if u != tag {
            let a = reverse[u];
            assert(reverse.contains_key(u));
            assert(tags.contains_key(a) && tags[a] == u);
            if tags.contains_key(id) {
                assert(reverse.contains_key(tags[id]));
            }
            assert(a != id);
            if r1.contains_key(tag) {
                assert(reverse.contains_key(tag));
                assert(tags.contains_key(reverse[tag]) && tags[reverse[tag]] == tag);
                assert(r1[tag] == reverse[tag]);
            }
            assert(t2.contains_key(a) && t2[a] == u);
        }
    }
}

/// The tag of each toplevel and, inversely, the toplevel of each tag.
pub struct ToplevelTagState {
    /// Map of toplevel IDs to their assigned tags.
    pub tags: HashMap<u64, String>,
    /// Inverse map: tag to toplevel ID.
    pub reverse: StringHashMap<u64>,
}

impl ToplevelTagState {
    /// No tags.
    pub fn new() -> (s: ToplevelTagState)
        ensures
            s.tags@ == Map::<u64, String>::empty(),
            s.reverse@ == Map::<Seq<char>, u64>::empty(),
    {
        ToplevelTagState { tags: HashMap::new(), reverse: StringHashMap::new() }
    }

    /// Tag a toplevel, replacing its previous tag: see `tagged`. The
    /// previous tag no longer names anything, and a toplevel that held the
    /// new tag loses it, so that `reverse` stays the inverse of `tags`.
    pub fn tag_toplevel(&mut self, toplevel_id: u64, tag: &str)
        ensures
            (tag_names(final(self).tags@), final(self).reverse@) == tagged(
                tag_names(old(self).tags@),
                old(self).reverse@,
                toplevel_id,
                tag@,
            ),
    {
        broadcast use vstd::std_specs::hash::group_hash_axioms;
        let ghost t0 = tag_names(self.tags@);
        let ghost r0 = self.reverse@;
        match self.tags.remove(&toplevel_id) {
            Some(old_tag) => {
                self.reverse.remove(old_tag.as_str());
            },
            None => {},
        }
        let ghost r1 = self.reverse@;
        assert(tag_names(self.tags@) =~= t0.remove(toplevel_id));
        match self.reverse.get(tag) {
            Some(other) => {
                let o = *other;
                self.tags.remove(&o);
                assert(tag_names(self.tags@) =~= t0.remove(toplevel_id).remove(r1[tag@]));
            },
            None => {},
        }
        self.tags.insert(toplevel_id, tag.to_owned());
        self.reverse.insert(tag.to_owned(), toplevel_id);
        assert(tag_names(self.tags@) =~= tagged(t0, r0, toplevel_id, tag@).0);
        assert(self.reverse@ =~= tagged(t0, r0, toplevel_id, tag@).1);
    }

    /// The toplevel a tag names.
    pub fn find_by_tag(&self, tag: &str) -> (r: Option<u64>)
        ensures
            r == (if self.reverse@.contains_key(tag@) {
                Some(self.reverse@[tag@])
            } else {
                None
            }),
    {
        match self.reverse.get(tag) {
            Some(id) => Some(*id),
            None => None,
        }
    }

    /// The tag of a toplevel.
    pub fn get_tag(&self, toplevel_id: u64) -> (r: Option<&str>)
        ensures
            match r {
                Some(t) => self.tags@.contains_key(toplevel_id) && t@ == self.tags@[toplevel_id]@,
                None => !self.tags@.contains_key(toplevel_id),
            },
    {
        broadcast use vstd::std_specs::hash::group_hash_axioms;
        match self.tags.get(&toplevel_id) {
            Some(t) => Some(t.as_str()),
            None => None,
        }
    }
}

impl Default for ToplevelTagState {
    fn default() -> (s: ToplevelTagState)
        ensures
            s.tags@ == Map::<u64, String>::empty(),
            s.reverse@ == Map::<Seq<char>, u64>::empty(),
    {
        ToplevelTagState::new()
    }
}

/// Register the `xdg_toplevel_tag_manager_v1` global.
pub fn register() {
}

} // verus!
