//! Scene graph with deferred cleanup of GPU resources.
//!
//! Each node tracks a generation counter. When a node is destroyed, its GPU
//! resources are retired only a few frames later, so that no frame still in
//! flight on the GPU uses them (on NVIDIA, freeing them early faults the
//! GPU).
use vstd::prelude::*;
use std::collections::VecDeque;
use std::collections::hash_map::RandomState;
use std::hash::BuildHasher;
use std::sync::atomic::{AtomicU64, Ordering};
use vstd::std_specs::iter::IteratorSpec;

verus! {

/// A fresh hasher state with random keys.
///
/// Trusted: calls `RandomState::new`, whose keys are random; nothing is
/// stated of them.
#[verifier::external_body]
fn fresh_random_state() -> RandomState {
    RandomState::new()
}

/// The hash of a value under a hasher state.
///
/// Trusted: calls `BuildHasher::hash_one`; with randomly keyed state the
/// result depends on chance, so nothing is stated of it.
#[verifier::external_body]
fn hash_one(state: &RandomState, v: u64) -> u64 {
    state.hash_one(v)
}

/// A node identifier that is not zero, drawn from a randomly keyed hash.
fn fresh_node_id() -> (id: u64)
    ensures
        id > 0,
{
    let h = hash_one(&fresh_random_state(), 0);
    if h == 0 {
        1
    } else {
        h
    }
}

/// The source of node identifiers: it hands out 1, 2, 3, ... in turn.
#[derive(Debug)]
pub struct NodeIds {
    pub next: u64,
}

impl NodeIds {
    /// A source whose first identifier is 1.
    pub fn new() -> (s: NodeIds)
        ensures
            s.next == 1,
    {
        NodeIds { next: 1 }
    }

    /// The next identifier.
    pub fn take(&mut self) -> (id: u64)
        requires
            old(self).next < u64::MAX,
        ensures
            id == old(self).next,
            final(self).next == old(self).next + 1,
    {
        let id = self.next;
        self.next = self.next + 1;
        id
    }
}

/// Identifiers taken from one source never repeat: one taken before the
/// source reached `now` is below `now.next`, and one taken at `later`, a
/// state the source reaches after `now`, is above it.
pub proof fn lemma_node_ids_increase(earlier: u64, now: NodeIds, later: NodeIds, taken: u64)
    requires
        earlier < now.next,
        now.next <= later.next,
        taken == later.next,
    ensures
        earlier < taken,
{
}

/// The kind of a scene node.
#[derive(Debug, Clone, Copy, PartialEq, Eq, Structural)]
pub enum SceneNodeKind {
    Root,
    Tree,
    Rect,
    Buffer,
    Surface,
    Popup,
}

/// A node of the scene graph, owning its children.
#[derive(Debug)]
pub struct SceneNode {
    pub id: u64,
    pub kind: SceneNodeKind,
    pub generation: u64,
    pub position: (i32, i32),
    pub enabled: bool,
    pub visible: bool,
    pub damage_frame: u64,
    pub parent_id: Option<u64>,
    pub children: Vec<SceneNode>,
}

/// The mathematical value of a scene (sub)tree.
pub struct NodeView {
    pub id: u64,
    pub kind: SceneNodeKind,
    pub generation: u64,
    pub position: (i32, i32),
    pub enabled: bool,
    pub visible: bool,
    pub damage_frame: u64,
    pub parent_id: Option<u64>,
    pub children: Seq<NodeView>,
}

/// The number of nodes of a tree.
pub open spec fn node_count(n: NodeView) -> nat
    decreases n,
{
    1 + nodes_in(n.children, n.children.len() as int)
}

/// The number of nodes of the trees `s[0..k]`.
pub open spec fn nodes_in(s: Seq<NodeView>, k: int) -> nat
    decreases s, k,
{
    if k <= 0 || k > s.len() {
        0
    } else {
        nodes_in(s, k - 1) + node_count(s[k - 1])
    }
}

/// Some node of the tree has the identifier `id`.
pub open spec fn has_node(n: NodeView, id: u64) -> bool
    decreases n,
{
    n.id == id || has_node_in(n.children, n.children.len() as int, id)
}

/// Some node of the trees `s[0..k]` has the identifier `id`.
pub open spec fn has_node_in(s: Seq<NodeView>, k: int, id: u64) -> bool
    decreases s, k,
{
    if k <= 0 || k > s.len() {
        false
    } else {
        has_node_in(s, k - 1, id) || has_node(s[k - 1], id)
    }
}

/// The tree with the damage frame of its first node `id` in pre-order set
/// to `frame`.
pub open spec fn mark_tree(n: NodeView, id: u64, frame: u64) -> NodeView
    decreases n,
{
    if n.id == id {
        NodeView { damage_frame: frame, ..n }
    } else {
        NodeView {
            children: Seq::new(
                n.children.len(),
                |i: int|
                    if 0 <= i < n.children.len() && has_node(n.children[i], id) && !has_node_in(
                        n.children,
                        i,
                        id,
                    ) {
                        mark_tree(n.children[i], id, frame)
                    } else {
                        n.children[i]
                    },
            ),
            ..n
        }
    }
}

impl SceneNode {
    /// The value of the tree rooted at this node.
    pub open spec fn view_of(&self) -> NodeView
        decreases self,
    {
        NodeView {
            id: self.id,
            kind: self.kind,
            generation: self.generation,
            position: self.position,
            enabled: self.enabled,
            visible: self.visible,
            damage_frame: self.damage_frame,
            parent_id: self.parent_id,
            children: Seq::new(
                self.children@.len(),
                |i: int|
                    if 0 <= i < self.children@.len() {
                        self.children@[i].view_of()
                    } else {
                        arbitrary()
                    },
            ),
        }
    }

    proof fn lemma_view_fields(&self)
        ensures
            self.view_of().id == self.id,
            self.view_of().kind == self.kind,
            self.view_of().generation == self.generation,
            self.view_of().position == self.position,
            self.view_of().enabled == self.enabled,
            self.view_of().visible == self.visible,
            self.view_of().damage_frame == self.damage_frame,
            self.view_of().parent_id == self.parent_id,
            self.view_of().children.len() == self.children@.len(),
            forall|i: int|
                0 <= i < self.children@.len() ==> #[trigger] self.view_of().children[i]
                    == self.children@[i].view_of(),
    {
    }

    /// A new node of the given kind, as `new` makes it, whose identifier is
    /// the next one of `ids`.
    pub fn new_from(kind: SceneNodeKind, ids: &mut NodeIds) -> (n: SceneNode)
        requires
            0 < old(ids).next < u64::MAX,
        ensures
            n.id == old(ids).next,
            final(ids).next == old(ids).next + 1,
            n.view_of() == (NodeView {
                id: old(ids).next,
                kind,
                generation: 0,
                position: (0, 0),
                enabled: true,
                visible: true,
                damage_frame: 0,
                parent_id: None,
                children: Seq::empty(),
            }),
    {
        let n = SceneNode {
            id: ids.take(),
            kind,
            generation: 0,
            position: (0, 0),
            enabled: true,
            visible: true,
            damage_frame: 0,
            parent_id: None,
            children: Vec::new(),
        };
        assert(n.view_of().children =~= Seq::<NodeView>::empty());
        n
    }

    /// A new node of the given kind: enabled, visible, at the origin, with
    /// generation 0, no parent and no children, and a non-zero identifier.
    /// There is no process-wide counter to draw it from, so it is drawn
    /// from a randomly keyed hash; `new_from` takes it from an identifier
    /// source instead, where identifiers never repeat.
    pub fn new(kind: SceneNodeKind) -> (n: SceneNode)
        ensures
            n.id > 0,
            n.kind == kind,
            n.generation == 0,
            n.position == (0i32, 0i32),
            n.enabled,
            n.visible,
            n.damage_frame == 0,
            n.view_of() == (NodeView {
                id: n.view_of().id,
                kind,
                generation: 0,
                position: (0, 0),
                enabled: true,
                visible: true,
                damage_frame: 0,
                parent_id: None,
                children: Seq::empty(),
            }),
    {
        let n = SceneNode {
            id: fresh_node_id(),
            kind,
            generation: 0,
            position: (0, 0),
            enabled: true,
            visible: true,
            damage_frame: 0,
            parent_id: None,
            children: Vec::new(),
        };
        assert(n.view_of().children =~= Seq::<NodeView>::empty());
        n
    }

    /// A new root node.
    pub fn new_tree() -> (n: SceneNode)
        ensures
            n.view_of().id > 0,
            n.view_of() == (NodeView {
                id: n.view_of().id,
                kind: SceneNodeKind::Root,
                generation: 0,
                position: (0, 0),
                enabled: true,
                visible: true,
                damage_frame: 0,
                parent_id: None,
                children: Seq::empty(),
            }),
    {
        SceneNode::new(SceneNodeKind::Root)
    }

    /// Append a child; its parent becomes this node.
    pub fn add_child(&mut self, child: SceneNode)
        ensures
            final(self).view_of() == (NodeView {
                children: old(self).view_of().children.push(
                    NodeView { parent_id: Some(old(self).view_of().id), ..child.view_of() },
                ),
                ..old(self).view_of()
            }),
    {
        let mut child = child;
        let ghost cv = child.view_of();
        child.parent_id = Some(self.id);
        proof {
            child.lemma_view_fields();
            assert(child.view_of().children =~= cv.children);
        }
        self.children.push(child);
        proof {
            assert(self.view_of().children =~= old(self).view_of().children.push(
                NodeView { parent_id: Some(old(self).id), ..cv },
            ));
        }
    }

    /// Remove and return the first child with the given identifier.
    pub fn remove_child(&mut self, child_id: u64) -> (r: Option<SceneNode>)
        ensures
            match r {
                Some(c) => {
                    exists|i: int|
                        0 <= i < old(self).view_of().children.len() && old(self).view_of().children[i].id == child_id && (forall|j: int|
                            0 <= j < i ==> old(self).view_of().children[j].id != child_id)
                            && c.view_of() == old(self).view_of().children[i] && final(self).view_of() == (NodeView {
                            children: old(self).view_of().children.remove(i),
                            ..old(self).view_of()
                        })
                },
                None => (forall|j: int|
                    0 <= j < old(self).view_of().children.len() ==> old(self).view_of().children[j].id != child_id) && final(self).view_of() == old(self).view_of(),
            },
    {
        let mut i: usize = 0;
        proof {
            self.lemma_view_fields();
        }
        while i < self.children.len()
            invariant
                i <= self.children.len(),
                *self == *old(self),
                forall|j: int| 0 <= j < i ==> self.children@[j].id != child_id,
            decreases self.children.len() - i,
        {
            if self.children[i].id == child_id {
                let c = self.children.remove(i);
                proof {
                    old(self).children@[i as int].lemma_view_fields();
                    assert forall|j: int| 0 <= j < i implies old(self).view_of().children[j].id
                        != child_id by {
                        old(self).children@[j].lemma_view_fields();
                    }
                    assert(c.view_of() == old(self).view_of().children[i as int]);
                    assert(self.view_of().children =~= old(self).view_of().children.remove(
                        i as int,
                    ));
                }
                return Some(c);
            }
            i = i + 1;
        }
        None
    }

    /// Move the node; this always starts a new generation.
    pub fn set_position(&mut self, x: i32, y: i32)
        requires
            old(self).view_of().generation < u64::MAX,
        ensures
            final(self).view_of() == (NodeView {
                position: (x, y),
                generation: (old(self).view_of().generation + 1) as u64,
                ..old(self).view_of()
            }),
    {
        self.position = (x, y);
        self.bump_generation();
        proof {
            assert(self.view_of().children =~= old(self).view_of().children);
        }
    }

    /// Enable or disable the node; a change starts a new generation.
    pub fn set_enabled(&mut self, enabled: bool)
        requires
            old(self).view_of().enabled != enabled ==> old(self).view_of().generation < u64::MAX,
        ensures
            old(self).view_of().enabled == enabled ==> final(self).view_of() == old(self).view_of(),
            old(self).view_of().enabled != enabled ==> final(self).view_of() == (NodeView {
                enabled,
                generation: (old(self).view_of().generation + 1) as u64,
                ..old(self).view_of()
            }),
    {
        if self.enabled != enabled {
            self.enabled = enabled;
            self.bump_generation();
        }
        proof {
            assert(self.view_of().children =~= old(self).view_of().children);
        }
    }

    /// Show or hide the node; a change starts a new generation.
    pub fn set_visible(&mut self, visible: bool)
        requires
            old(self).view_of().visible != visible ==> old(self).view_of().generation < u64::MAX,
        ensures
            old(self).view_of().visible == visible ==> final(self).view_of() == old(self).view_of(),
            old(self).view_of().visible != visible ==> final(self).view_of() == (NodeView {
                visible,
                generation: (old(self).view_of().generation + 1) as u64,
                ..old(self).view_of()
            }),
    {
        if self.visible != visible {
            self.visible = visible;
            self.bump_generation();
        }
        proof {
            assert(self.view_of().children =~= old(self).view_of().children);
        }
    }

    /// Record the frame in which the node was damaged.
    pub fn mark_damaged(&mut self, frame: u64)
        ensures
            final(self).view_of() == (NodeView { damage_frame: frame, ..old(self).view_of() }),
    {
        self.damage_frame = frame;
        proof {
            assert(self.view_of().children =~= old(self).view_of().children);
        }
    }

    fn bump_generation(&mut self)
        requires
            old(self).generation < u64::MAX,
        ensures
            *final(self) == (SceneNode { generation: (old(self).generation + 1) as u64, ..*old(self) }),
    {
        self.generation = self.generation + 1;
    }

    /// The number of direct children.
    pub fn child_count(&self) -> (n: usize)
        ensures
            n == self.view_of().children.len(),
    {
        self.children.len()
    }

    /// The direct children, in order.
    pub fn iter_children(&self) -> (it: std::slice::Iter<'_, SceneNode>)
        ensures
            it.remaining().map_values(|c: &SceneNode| c.view_of()) == self.view_of().children,
    {
        broadcast use vstd::std_specs::slice::axiom_spec_slice_iter;
        let it = self.children.as_slice().iter();
        proof {
            assert(it.remaining().map_values(|c: &SceneNode| c.view_of()) =~= self.view_of().children);
        }
        it
    }

    /// The direct children that are both enabled and visible, in order.
    pub fn iter_visible(&self) -> (v: Vec<&SceneNode>)
        ensures
            v@.map_values(|c: &SceneNode| c.view_of()) == self.view_of().children.filter(
                |c: NodeView| c.enabled && c.visible,
            ),
    {
        let ghost all = self.view_of().children;
        let mut v: Vec<&SceneNode> = Vec::new();
        let mut i: usize = 0;
        while i < self.children.len()
            invariant
                i <= self.children.len(),
                all == self.view_of().children,
                v@.map_values(|c: &SceneNode| c.view_of()) == all.take(i as int).filter(
                    |c: NodeView| c.enabled && c.visible,
                ),
            decreases self.children.len() - i,
        {
            let c = &self.children[i];
            proof {
                assert(all.take(i + 1).drop_last() =~= all.take(i as int));
                assert(all.take(i + 1).last() == c.view_of());
                reveal_with_fuel(Seq::<_>::filter, 1);
                assert(all.take(i as int).push(c.view_of()) =~= all.take(i + 1));
            }
            if c.enabled && c.visible {
                v.push(c);
                proof {
                    assert(v@.map_values(|c: &SceneNode| c.view_of()) =~= old_map_push(v@));
                }
            }
            i = i + 1;
        }
        assert(all.take(self.children.len() as int) =~= all);
        v
    }

    /// Give the node a new parent; this starts a new generation.
    pub fn reparent(&mut self, new_parent_id: u64)
        requires
            old(self).view_of().generation < u64::MAX,
        ensures
            final(self).view_of() == (NodeView {
                parent_id: Some(new_parent_id),
                generation: (old(self).view_of().generation + 1) as u64,
                ..old(self).view_of()
            }),
    {
        self.parent_id = Some(new_parent_id);
        self.bump_generation();
        proof {
            assert(self.view_of().children =~= old(self).view_of().children);
        }
    }
}

/// `has_node_in` holds exactly when one of the first `k` trees holds the node.
pub proof fn lemma_has_node_in(s: Seq<NodeView>, k: int, id: u64)
    requires
        0 <= k <= s.len(),
    ensures
        has_node_in(s, k, id) <==> exists|j: int| 0 <= j < k && has_node(s[j], id),
    decreases k,
{
    if k > 0 {
        lemma_has_node_in(s, k - 1, id);
        if has_node(s[k - 1], id) {
            assert(0 <= k - 1 < k && has_node(s[k - 1], id));
        }
    }
}

proof fn lemma_nodes_in_mono(s: Seq<NodeView>, k1: int, k2: int)
    requires
        0 <= k1 <= k2 <= s.len(),
    ensures
        nodes_in(s, k1) <= nodes_in(s, k2),
    decreases k2,
{
    if k1 < k2 {
        lemma_nodes_in_mono(s, k1, k2 - 1);
    }
}

impl SceneNode {
    /// The number of nodes in the tree rooted at this node.
    pub fn total_nodes(&self) -> (n: usize)
        requires
            node_count(self.view_of()) <= usize::MAX,
        ensures
            n == node_count(self.view_of()),
        decreases self,
    {
        let ghost v = self.view_of();
        proof {
            self.lemma_view_fields();
        }
        let mut count: usize = 1;
        let mut i: usize = 0;
        while i < self.children.len()
            invariant
                v == self.view_of(),
                v.children.len() == self.children@.len(),
                forall|j: int| 0 <= j < self.children@.len() ==> #[trigger] v.children[j]
                    == self.children@[j].view_of(),
                i <= self.children.len(),
                count == 1 + nodes_in(v.children, i as int),
                node_count(v) <= usize::MAX,
            decreases self.children.len() - i,
        {
            proof {
                lemma_nodes_in_mono(v.children, i + 1, v.children.len() as int);
            }
            let c = self.children[i].total_nodes();
            count = count + c;
            i = i + 1;
        }
        count
    }

    /// Set the damage frame of the first node `id` of this tree in
    /// pre-order; returns whether there was one.
    fn mark_in(&mut self, id: u64, frame: u64) -> (found: bool)
        ensures
            found == has_node(old(self).view_of(), id),
            found ==> final(self).view_of() == mark_tree(old(self).view_of(), id, frame),
            !found ==> final(self).view_of() == old(self).view_of(),
        decreases old(self).view_of(),
    {
        let ghost v = self.view_of();
        proof {
            self.lemma_view_fields();
        }
        if self.id == id {
            self.damage_frame = frame;
            proof {
                assert(self.view_of().children =~= v.children);
            }
            return true;
        }
        let mut i: usize = 0;
        while i < self.children.len()
            invariant
                v == old(self).view_of(),
                self.view_of() == v,
                self.id == v.id,
                self.id != id,
                v.children.len() == self.children@.len(),
                forall|j: int| 0 <= j < self.children@.len() ==> #[trigger] v.children[j]
                    == self.children@[j].view_of(),
                i <= self.children.len(),
                !has_node_in(v.children, i as int, id),
            decreases self.children.len() - i,
        {
            let ghost before = self.children@;
            proof {
                assert(decreases_to!(v => v.children));
                assert(decreases_to!(v.children => v.children[i as int]));
            }
            let hit = self.children[i].mark_in(id, frame);
            proof {
                lemma_has_node_in(v.children, i as int, id);
                lemma_has_node_in(v.children, i + 1, id);
            }
            if hit {
                proof {
                    lemma_has_node_in(v.children, v.children.len() as int, id);
                    assert(has_node(v, id));
                    let m = mark_tree(v, id, frame);
                    assert forall|j: int| 0 <= j < v.children.len() implies m.children[j]
                        == self.view_of().children[j] by {
                        self.lemma_view_fields();
                        if j < i {
                            assert(!has_node(v.children[j], id));
                            assert(self.children@[j] == before[j]);
                        } else if j > i {
                            lemma_has_node_in(v.children, j, id);
                            assert(self.children@[j] == before[j]);
                        }
                    }
                    self.lemma_view_fields();
                    assert(self.view_of().children =~= m.children);
                }
                return true;
            }
            proof {
                self.lemma_view_fields();
                assert forall|j: int| 0 <= j < v.children.len() implies v.children[j]
                    == self.children@[j].view_of() by {
                    if j != i {
                        assert(self.children@[j] == before[j]);
                    }
                }
                assert(self.view_of().children =~= v.children);
            }
            i = i + 1;
        }
        proof {
            assert(!has_node(v, id));
        }
        false
    }
}

/// Scheduled retirements of GPU resources: `(node id, generation)` pairs,
/// in scheduling order.
#[derive(Debug)]
pub struct DeferredCleanup {
    queue: VecDeque<(u64, u64)>,
}

/// An entry may be retired once the current generation reaches its own.
pub open spec fn retirable(e: (u64, u64), current: u64) -> bool {
    e.1 <= current
}

impl DeferredCleanup {
    /// The scheduled entries, oldest first.
    pub closed spec fn entries(&self) -> Seq<(u64, u64)> {
        self.queue@
    }

    /// Nothing scheduled.
    pub fn new() -> (d: DeferredCleanup)
        ensures
            d.entries() == Seq::<(u64, u64)>::empty(),
    {
        DeferredCleanup { queue: VecDeque::new() }
    }

    /// Schedule the resources of a node to be retired once the generation
    /// reaches `retire_after_gen`.
    pub fn schedule(&mut self, node_id: u64, retire_after_gen: u64)
        ensures
            final(self).entries() == old(self).entries().push((node_id, retire_after_gen)),
    {
        self.queue.push_back((node_id, retire_after_gen));
    }

    /// Retire every entry whose generation has been reached, returning
    /// their node ids in scheduling order; the other entries stay, in order.
    pub fn retire(&mut self, current_generation: u64) -> (freed: Vec<u64>)
        ensures
            freed@ == old(self).entries().filter(|e: (u64, u64)| retirable(e, current_generation)).map_values(
                |e: (u64, u64)| e.0,
            ),
            final(self).entries() == old(self).entries().filter(
                |e: (u64, u64)| !retirable(e, current_generation),
            ),
    {
        let ghost all = self.queue@;
        let mut freed: Vec<u64> = Vec::new();
        let mut i: usize = 0;
        let ghost mut seen: int = 0;
        while i < self.queue.len()
            invariant
                0 <= seen <= all.len(),
                i <= self.queue@.len(),
                self.queue@ == all.take(seen).filter(
                    |e: (u64, u64)| !retirable(e, current_generation),
                ) + all.skip(seen),
                i == all.take(seen).filter(|e: (u64, u64)| !retirable(e, current_generation)).len(),
                freed@ == all.take(seen).filter(|e: (u64, u64)| retirable(e, current_generation)).map_values(
                    |e: (u64, u64)| e.0,
                ),
            decreases all.len() - seen,
        {
            proof {
                reveal_with_fuel(Seq::<_>::filter, 1);
                assert(all.take(seen + 1).drop_last() =~= all.take(seen));
                assert(all.take(seen + 1).last() == all[seen]);
                assert(self.queue@[i as int] == all[seen]);
            }
            let e = self.queue[i];
            if e.1 <= current_generation {
                freed.push(e.0);
                self.queue.remove(i);
                proof {
                    assert(self.queue@ =~= all.take(seen + 1).filter(
                        |e: (u64, u64)| !retirable(e, current_generation),
                    ) + all.skip(seen + 1));
                    assert(freed@ =~= all.take(seen + 1).filter(
                        |e: (u64, u64)| retirable(e, current_generation),
                    ).map_values(|e: (u64, u64)| e.0));
                }
            } else {
                i = i + 1;
                proof {
                    assert(self.queue@ =~= all.take(seen + 1).filter(
                        |e: (u64, u64)| !retirable(e, current_generation),
                    ) + all.skip(seen + 1));
                }
            }
            proof {
                seen = seen + 1;
            }
        }
        proof {
            assert(seen == all.len()) by {
                if seen < all.len() {
                    assert(self.queue@.len() > i);
                }
            }
            assert(all.take(seen) =~= all);
            assert(all.skip(seen) =~= Seq::<(u64, u64)>::empty());
            assert(self.queue@ =~= all.filter(|e: (u64, u64)| !retirable(e, current_generation)));
        }
        freed
    }

    /// The number of scheduled entries.
    pub fn pending_count(&self) -> (n: usize)
        ensures
            n == self.entries().len(),
    {
        self.queue.len()
    }
}

impl Default for DeferredCleanup {
    fn default() -> (d: DeferredCleanup)
        ensures
            d.entries() == Seq::<(u64, u64)>::empty(),
    {
        DeferredCleanup::new()
    }
}

/// The entries that stay scheduled after a retirement at generation `g`.
pub open spec fn kept_after(entries: Seq<(u64, u64)>, g: u64) -> Seq<(u64, u64)> {
    entries.filter(|e: (u64, u64)| !retirable(e, g))
}

/// After a retirement at generation `g`, no remaining entry is retirable at
/// `g`, so retiring again at `g` frees nothing.
pub proof fn lemma_retire_leaves_nothing_due(entries: Seq<(u64, u64)>, g: u64)
    ensures
        forall|i: int|
            0 <= i < kept_after(entries, g).len() ==> !retirable(
                #[trigger] kept_after(entries, g)[i],
                g,
            ),
        kept_after(entries, g).filter(|e: (u64, u64)| retirable(e, g)).len() == 0,
{
    let rest = kept_after(entries, g);
    entries.filter_lemma(|e: (u64, u64)| !retirable(e, g));
    rest.filter_lemma(|e: (u64, u64)| retirable(e, g));
    let again = rest.filter(|e: (u64, u64)| retirable(e, g));
    if again.len() > 0 {
        let x = again[0];
        assert(retirable(x, g));
        assert(again.contains(x));
        rest.lemma_filter_contains_rev(|e: (u64, u64)| retirable(e, g), x);
        assert(rest.contains(x));
        let k = choose|k: int| 0 <= k < rest.len() && rest[k] == x;
        assert(!retirable(rest[k], g));
    }
}

/// The generation after `g`.
pub open spec fn next_generation(g: u64) -> u64 {
    (g + 1) as u64
}

/// Increment a shared counter, returning its previous value (not stated,
/// as other threads may change the counter).
fn advance_counter(c: &AtomicU64) -> u64 {
    c.fetch_add(1, Ordering::SeqCst)
}

/// The scene: the root tree, the deferred cleanup queue, and the frame
/// generation.
#[derive(Debug)]
pub struct Scene {
    pub root: SceneNode,
    pub deferred: DeferredCleanup,
    pub generation: u64,
    pub frame_counter: AtomicU64,
    pub ids: NodeIds,
}

impl Scene {
    /// An empty scene at generation 0: a root node only, whose identifier
    /// is the first of the scene's identifier source `ids`.
    pub fn new() -> (s: Scene)
        ensures
            s.root.view_of().id > 0,
            s.root.view_of() == (NodeView {
                id: s.root.view_of().id,
                kind: SceneNodeKind::Root,
                generation: 0,
                position: (0, 0),
                enabled: true,
                visible: true,
                damage_frame: 0,
                parent_id: None,
                children: Seq::empty(),
            }),
            s.root.view_of().kind == SceneNodeKind::Root,
            s.root.view_of().children.len() == 0,
            s.deferred.entries().len() == 0,
            s.generation == 0,
            s.root.id == 1,
            s.ids.next == 2,
    {
        let mut ids = NodeIds::new();
        let root = SceneNode::new_from(SceneNodeKind::Root, &mut ids);
        Scene {
            root,
            deferred: DeferredCleanup::new(),
            generation: 0,
            frame_counter: AtomicU64::new(0),
            ids,
        }
    }

    /// Start a frame: advance the generation and retire every cleanup whose
    /// generation has been reached. Returns the frame counter before the
    /// frame (an atomic shared counter, so its value is not stated).
    pub fn begin_frame(&mut self) -> (fc: u64)
        requires
            old(self).generation < u64::MAX,
        ensures
            final(self).generation == old(self).generation + 1,
            final(self).deferred.entries() == old(self).deferred.entries().filter(
                |e: (u64, u64)| !retirable(e, next_generation(old(self).generation)),
            ),
            final(self).root == old(self).root,
    {
        self.generation = self.generation + 1;
        let fc = advance_counter(&self.frame_counter);
        let _freed = self.deferred.retire(self.generation);
        fc
    }

    /// End a frame; cleanups scheduled during it are already deferred.
    pub fn end_frame(&mut self)
        ensures
            final(self).root == old(self).root,
            final(self).deferred == old(self).deferred,
            final(self).generation == old(self).generation,
    {
    }

    /// Record a damage frame on the first node `node_id` of the scene in
    /// pre-order; nothing changes when there is no such node.
    pub fn mark_damage(&mut self, node_id: u64, frame: u64)
        ensures
            has_node(old(self).root.view_of(), node_id) ==> final(self).root.view_of() == mark_tree(
                old(self).root.view_of(),
                node_id,
                frame,
            ),
            !has_node(old(self).root.view_of(), node_id) ==> final(self).root.view_of() == old(
                self).root.view_of(),
            final(self).deferred == old(self).deferred,
            final(self).generation == old(self).generation,
    {
        self.root.mark_in(node_id, frame);
    }

    /// Retire the node's resources two generations from now: one for the
    /// current frame, one for the depth of the GPU pipeline.
    pub fn schedule_cleanup(&mut self, node_id: u64)
        requires
            old(self).generation <= u64::MAX - 2,
        ensures
            final(self).deferred.entries() == old(self).deferred.entries().push(
                (node_id, (old(self).generation + 2) as u64),
            ),
            final(self).root == old(self).root,
            final(self).generation == old(self).generation,
    {
        let retire_at = self.generation + 2;
        self.deferred.schedule(node_id, retire_at);
    }

    /// The number of nodes in the scene.
    pub fn total_nodes(&self) -> (n: usize)
        requires
            node_count(self.root.view_of()) <= usize::MAX,
        ensures
            n == node_count(self.root.view_of()),
    {
        self.root.total_nodes()
    }
}

impl Default for Scene {
    fn default() -> (s: Scene)
        ensures
            s.root.view_of().kind == SceneNodeKind::Root,
            s.root.view_of().children.len() == 0,
            s.deferred.entries().len() == 0,
            s.generation == 0,
    {
        Scene::new()
    }
}

spec fn old_map_push(v: Seq<&SceneNode>) -> Seq<NodeView> {
    v.map_values(|c: &SceneNode| c.view_of())
}

} // verus!
