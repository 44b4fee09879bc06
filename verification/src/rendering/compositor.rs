//! A compositor pass: the draw commands of one output's frame, grouped
//! by layer, and the layers it draws, bottom to top.
use vstd::prelude::*;
use crate::geometry::Rect;

verus! {

/// The layers of a frame, bottom to top; the order of the variants is the
/// drawing order.
#[derive(Debug, Clone, Copy, PartialEq, Eq, Structural, PartialOrd, Ord)]
pub enum RenderLayer {
    Background,
    Bottom,
    Normal,
    Top,
    Overlay,
    Popup,
    LockScreen,
    Debug,
}

impl RenderLayer {
    /// Every layer, bottom to top.
    pub fn all() -> (r: [RenderLayer; 8])
        ensures
            r@ == seq![
                RenderLayer::Background,
                RenderLayer::Bottom,
                RenderLayer::Normal,
                RenderLayer::Top,
                RenderLayer::Overlay,
                RenderLayer::Popup,
                RenderLayer::LockScreen,
                RenderLayer::Debug,
            ],
    {
        let r = [
            RenderLayer::Background,
            RenderLayer::Bottom,
            RenderLayer::Normal,
            RenderLayer::Top,
            RenderLayer::Overlay,
            RenderLayer::Popup,
            RenderLayer::LockScreen,
            RenderLayer::Debug,
        ];
        assert(r@ =~= seq![
            RenderLayer::Background,
            RenderLayer::Bottom,
            RenderLayer::Normal,
            RenderLayer::Top,
            RenderLayer::Overlay,
            RenderLayer::Popup,
            RenderLayer::LockScreen,
            RenderLayer::Debug,
        ]);
        r
    }
}

/// The position of a layer in the drawing order.
pub open spec fn layer_rank(l: RenderLayer) -> int {
    match l {
        RenderLayer::Background => 0,
        RenderLayer::Bottom => 1,
        RenderLayer::Normal => 2,
        RenderLayer::Top => 3,
        RenderLayer::Overlay => 4,
        RenderLayer::Popup => 5,
        RenderLayer::LockScreen => 6,
        RenderLayer::Debug => 7,
    }
}

fn rank_of(l: RenderLayer) -> (r: u8)
    ensures
        r == layer_rank(l),
{
    match l {
        RenderLayer::Background => 0,
        RenderLayer::Bottom => 1,
        RenderLayer::Normal => 2,
        RenderLayer::Top => 3,
        RenderLayer::Overlay => 4,
        RenderLayer::Popup => 5,
        RenderLayer::LockScreen => 6,
        RenderLayer::Debug => 7,
    }
}

/// The draw commands of one layer: filled rectangles with their colour
/// (`C`), and textures (`T`).
#[verifier::reject_recursive_types(C)]
#[verifier::reject_recursive_types(T)]
pub struct LayerDrawCommand<C, T> {
    pub layer: RenderLayer,
    pub rects: Vec<(Rect, C)>,
    pub textures: Vec<T>,
}

/// The value of a layer's commands.
pub struct LayerView<C, T> {
    pub layer: RenderLayer,
    pub rects: Seq<(Rect, C)>,
    pub textures: Seq<T>,
}

impl<C, T> LayerDrawCommand<C, T> {
    pub open spec fn view_of(self) -> LayerView<C, T> {
        LayerView { layer: self.layer, rects: self.rects@, textures: self.textures@ }
    }
}

pub open spec fn layers_view<C, T>(ls: Seq<LayerDrawCommand<C, T>>) -> Seq<LayerView<C, T>> {
    ls.map_values(|l: LayerDrawCommand<C, T>| l.view_of())
}

/// The position of the first group of `layer` in `ls`.
pub open spec fn group_of<C, T>(ls: Seq<LayerView<C, T>>, layer: RenderLayer) -> Option<int>
    decreases ls.len(),
{
    if ls.len() == 0 {
        None
    } else if ls[0].layer == layer {
        Some(0)
    } else {
        match group_of(ls.drop_first(), layer) {
            Some(i) => Some(i + 1),
            None => None,
        }
    }
}

/// The groups after a rectangle is added to `layer`: appended to its first
/// group, or in a new group at the end.
pub open spec fn with_rect<C, T>(ls: Seq<LayerView<C, T>>, layer: RenderLayer, r: (Rect, C)) -> Seq<
    LayerView<C, T>,
> {
    match group_of(ls, layer) {
        Some(i) => ls.update(i, LayerView { rects: ls[i].rects.push(r), ..ls[i] }),
        None => ls.push(LayerView { layer, rects: seq![r], textures: Seq::empty() }),
    }
}

/// The groups after a texture is added to `layer`, as for a rectangle.
pub open spec fn with_texture<C, T>(ls: Seq<LayerView<C, T>>, layer: RenderLayer, t: T) -> Seq<
    LayerView<C, T>,
> {
    match group_of(ls, layer) {
        Some(i) => ls.update(i, LayerView { textures: ls[i].textures.push(t), ..ls[i] }),
        None => ls.push(LayerView { layer, rects: Seq::empty(), textures: seq![t] }),
    }
}

/// The number of draw commands in `ls`.
pub open spec fn draws<C, T>(ls: Seq<LayerView<C, T>>) -> int
    decreases ls.len(),
{
    if ls.len() == 0 {
        0
    } else {
        draws(ls.drop_last()) + ls.last().rects.len() + ls.last().textures.len()
    }
}

/// `a` is drawn after `b`.
pub open spec fn layer_after<C, T>(a: LayerView<C, T>, b: LayerView<C, T>) -> bool {
    layer_rank(b.layer) < layer_rank(a.layer)
}

/// `x` inserted into `s` before the first group drawn after it.
pub open spec fn insert_group<C, T>(s: Seq<LayerView<C, T>>, x: LayerView<C, T>) -> Seq<LayerView<C, T>>
    decreases s.len(),
{
    if s.len() == 0 {
        seq![x]
    } else if layer_after(s[0], x) {
        seq![x] + s
    } else {
        seq![s[0]] + insert_group(s.drop_first(), x)
    }
}

/// `s` in drawing order, groups of the same layer keeping their order (a
/// stable sort).
pub open spec fn sort_groups<C, T>(s: Seq<LayerView<C, T>>) -> Seq<LayerView<C, T>>
    decreases s.len(),
{
    if s.len() == 0 {
        s
    } else {
        insert_group(sort_groups(s.drop_last()), s.last())
    }
}

/// `s` is in drawing order.
pub open spec fn groups_ordered<C, T>(s: Seq<LayerView<C, T>>) -> bool {
    forall|i: int, j: int| 0 <= i < j < s.len() ==> layer_rank(#[trigger] s[i].layer) <= layer_rank(#[trigger] s[j].layer)
}

proof fn lemma_group_of<C, T>(ls: Seq<LayerView<C, T>>, layer: RenderLayer, i: int)
    requires
        0 <= i <= ls.len(),
        forall|k: int| 0 <= k < i ==> (#[trigger] ls[k]).layer != layer,
        i == ls.len() || ls[i].layer == layer,
    ensures
        group_of(ls, layer) == (if i == ls.len() { None } else { Some(i) }),
    decreases i,
{
    if i > 0 {
        let t = ls.drop_first();
        assert forall|k: int| 0 <= k < i - 1 implies (#[trigger] t[k]).layer != layer by {
            assert(t[k] == ls[k + 1]);
        }
        lemma_group_of(t, layer, i - 1);
    }
}

proof fn lemma_insert_group_at<C, T>(s: Seq<LayerView<C, T>>, x: LayerView<C, T>, j: int)
    requires
        0 <= j <= s.len(),
        forall|k: int| 0 <= k < j ==> !layer_after(#[trigger] s[k], x),
        j == s.len() || layer_after(s[j], x),
    ensures
        insert_group(s, x) == s.insert(j, x),
    decreases j,
{
    if j == 0 {
        if s.len() == 0 {
            assert(s.insert(0, x) =~= seq![x]);
        } else {
            assert(s.insert(0, x) =~= seq![x] + s);
        }
    } else {
        let t = s.drop_first();
        assert forall|k: int| 0 <= k < j - 1 implies !layer_after(#[trigger] t[k], x) by {
            assert(t[k] == s[k + 1]);
        }
        lemma_insert_group_at(t, x, j - 1);
        assert(s.insert(j, x) =~= seq![s[0]] + t.insert(j - 1, x));
    }
}

proof fn lemma_insert_group_sorted<C, T>(s: Seq<LayerView<C, T>>, x: LayerView<C, T>)
    requires
        groups_ordered(s),
    ensures
        groups_ordered(insert_group(s, x)),
        insert_group(s, x).to_multiset() == s.to_multiset().insert(x),
    decreases s.len(),
{
    broadcast use vstd::seq_lib::group_to_multiset_ensures, vstd::multiset::group_multiset_axioms;
    let r = insert_group(s, x);
    if s.len() == 0 {
        assert(r =~= seq![x]);
        assert(seq![x] =~= Seq::<LayerView<C, T>>::empty().push(x));
    } else if layer_after(s[0], x) {
        assert(r == seq![x] + s);
        vstd::seq_lib::lemma_multiset_commutative(seq![x], s);
        assert(seq![x] =~= Seq::<LayerView<C, T>>::empty().push(x));
        assert forall|i: int, j: int| 0 <= i < j < r.len() implies layer_rank(#[trigger] r[i].layer) <= layer_rank(#[trigger] r[j].layer) by {
            if i == 0 {
                assert(r[j] == s[j - 1]);
                if j - 1 > 0 {
                    assert(layer_rank(s[0].layer) <= layer_rank(s[j - 1].layer));
                }
            } else {
                assert(r[i] == s[i - 1] && r[j] == s[j - 1]);
            }
        }
    } else {
        let t = s.drop_first();
        assert(groups_ordered(t)) by {
            assert forall|i: int, j: int| 0 <= i < j < t.len() implies layer_rank(#[trigger] t[i].layer) <= layer_rank(#[trigger] t[j].layer) by {
                assert(t[i] == s[i + 1] && t[j] == s[j + 1]);
            }
        }
        lemma_insert_group_sorted(t, x);
        let u = insert_group(t, x);
        assert(r == seq![s[0]] + u);
        vstd::seq_lib::lemma_multiset_commutative(seq![s[0]], u);
        vstd::seq_lib::lemma_multiset_commutative(seq![s[0]], t);
        assert(s =~= seq![s[0]] + t);
        assert forall|i: int, j: int| 0 <= i < j < r.len() implies layer_rank(#[trigger] r[i].layer) <= layer_rank(#[trigger] r[j].layer) by {
            if i == 0 {
                let y = u[j - 1];
                assert(r[j] == y);
                assert(u.to_multiset().count(y) > 0);
                if y != x {
                    assert(t.to_multiset().count(y) > 0);
                    assert(t.contains(y));
                    let m = choose|m: int| 0 <= m < t.len() && t[m] == y;
                    assert(s[m + 1] == y);
                }
            } else {
                assert(r[i] == u[i - 1] && r[j] == u[j - 1]);
            }
        }
    }
}

/// Sorting puts the groups in drawing order and keeps every group, each
/// as often as before.
pub proof fn lemma_sort_groups_ordered<C, T>(s: Seq<LayerView<C, T>>)
    ensures
        groups_ordered(sort_groups(s)),
        sort_groups(s).to_multiset() == s.to_multiset(),
    decreases s.len(),
{
    broadcast use vstd::seq_lib::group_to_multiset_ensures, vstd::multiset::group_multiset_axioms;
    if s.len() > 0 {
        lemma_sort_groups_ordered(s.drop_last());
        lemma_insert_group_sorted(sort_groups(s.drop_last()), s.last());
        assert(s =~= s.drop_last().push(s.last()));
    }
}

/// Adding a rectangle or a texture adds one draw command.
pub proof fn lemma_add_counts_one<C, T>(ls: Seq<LayerView<C, T>>, layer: RenderLayer, r: (Rect, C), t: T)
    ensures
        draws(with_rect(ls, layer, r)) == draws(ls) + 1,
        draws(with_texture(ls, layer, t)) == draws(ls) + 1,
{
    lemma_draws_update(ls, layer, r, t);
}

proof fn lemma_draws_update<C, T>(ls: Seq<LayerView<C, T>>, layer: RenderLayer, r: (Rect, C), t: T)
    ensures
        draws(with_rect(ls, layer, r)) == draws(ls) + 1,
        draws(with_texture(ls, layer, t)) == draws(ls) + 1,
    decreases ls.len(),
{
    match group_of(ls, layer) {
        Some(i) => {
            lemma_group_of_bounds(ls, layer);
            lemma_draws_replace(ls, i, LayerView { rects: ls[i].rects.push(r), ..ls[i] });
            lemma_draws_replace(ls, i, LayerView { textures: ls[i].textures.push(t), ..ls[i] });
        },
        None => {
            assert(ls.push(LayerView { layer, rects: seq![r], textures: Seq::<T>::empty() }).drop_last() =~= ls);
            assert(ls.push(LayerView { layer, rects: Seq::<(Rect, C)>::empty(), textures: seq![t] }).drop_last() =~= ls);
        },
    }
}

proof fn lemma_group_of_bounds<C, T>(ls: Seq<LayerView<C, T>>, layer: RenderLayer)
    ensures
        group_of(ls, layer) matches Some(i) ==> 0 <= i < ls.len() && ls[i].layer == layer,
    decreases ls.len(),
{
    if ls.len() > 0 && ls[0].layer != layer {
        lemma_group_of_bounds(ls.drop_first(), layer);
    }
}

proof fn lemma_draws_replace<C, T>(ls: Seq<LayerView<C, T>>, i: int, g: LayerView<C, T>)
    requires
        0 <= i < ls.len(),
    ensures
        draws(ls.update(i, g)) == draws(ls) - ls[i].rects.len() - ls[i].textures.len() + g.rects.len()
            + g.textures.len(),
    decreases ls.len(),
{
    let u = ls.update(i, g);
    if i == ls.len() - 1 {
        assert(u.drop_last() =~= ls.drop_last());
    } else {
        lemma_draws_replace(ls.drop_last(), i, g);
        assert(u.drop_last() =~= ls.drop_last().update(i, g));
    }
}

/// The draw commands of one output's frame.
#[verifier::reject_recursive_types(C)]
#[verifier::reject_recursive_types(T)]
pub struct CompositorPass<C, T> {
    pub output_idx: usize,
    pub output_width: u32,
    pub output_height: u32,
    pub clear_color: C,
    pub layers: Vec<LayerDrawCommand<C, T>>,
    pub needs_render: bool,
}

impl<C, T> CompositorPass<C, T> {
    /// An empty pass for output `output_idx` of `width` x `height`,
    /// cleared to `clear_color`.
    pub fn new(output_idx: usize, width: u32, height: u32, clear_color: C) -> (p: Self)
        ensures
            p.output_idx == output_idx,
            p.output_width == width,
            p.output_height == height,
            p.clear_color == clear_color,
            p.layers@.len() == 0,
            !p.needs_render,
    {
        CompositorPass {
            output_idx,
            output_width: width,
            output_height: height,
            clear_color,
            layers: Vec::new(),
            needs_render: false,
        }
    }

    /// Start a frame: no commands, nothing to render.
    pub fn begin(&mut self)
        ensures
            final(self).layers@.len() == 0,
            !final(self).needs_render,
            final(self).output_idx == old(self).output_idx,
            final(self).output_width == old(self).output_width,
            final(self).output_height == old(self).output_height,
            final(self).clear_color == old(self).clear_color,
    {
        self.layers.clear();
        self.needs_render = false;
    }

    fn find_group(&self, layer: RenderLayer) -> (r: Option<usize>)
        ensures
            match r {
                Some(i) => group_of(layers_view(self.layers@), layer) == Some(i as int),
                None => group_of(layers_view(self.layers@), layer) is None,
            },
            r matches Some(i) ==> i < self.layers@.len(),
    {
        let ghost lv = layers_view(self.layers@);
        let mut i: usize = 0;
        while i < self.layers.len()
            invariant
                i <= self.layers@.len(),
                lv == layers_view(self.layers@),
                forall|k: int| 0 <= k < i ==> (#[trigger] lv[k]).layer != layer,
            decreases self.layers.len() - i,
        {
            if self.layers[i].layer == layer {
                proof {
                    lemma_group_of(lv, layer, i as int);
                }
                return Some(i);
            }
            i = i + 1;
        }
        proof {
            lemma_group_of(lv, layer, i as int);
        }
        None
    }

    /// Add a filled rectangle of colour `color` to `layer`: to the first
    /// group of that layer, or to a new group at the end. The pass then
    /// needs rendering.
    pub fn add_rect(&mut self, layer: RenderLayer, rect: Rect, color: C)
        ensures
            layers_view(final(self).layers@) == with_rect(layers_view(old(self).layers@), layer, (rect, color)),
            final(self).needs_render,
            final(self).output_idx == old(self).output_idx,
            final(self).output_width == old(self).output_width,
            final(self).output_height == old(self).output_height,
            final(self).clear_color == old(self).clear_color,
    {
        let ghost lv = layers_view(self.layers@);
        match self.find_group(layer) {
            Some(i) => {
                let mut g = self.layers.remove(i);
                g.rects.push((rect, color));
                self.layers.insert(i, g);
                assert(layers_view(self.layers@) =~= lv.update(
                    i as int,
                    LayerView { rects: lv[i as int].rects.push((rect, color)), ..lv[i as int] },
                ));
            },
            None => {
                let mut rects: Vec<(Rect, C)> = Vec::new();
                rects.push((rect, color));
                self.layers.push(LayerDrawCommand { layer, rects, textures: Vec::new() });
                assert(layers_view(self.layers@) =~= lv.push(
                    LayerView { layer, rects: seq![(rect, color)], textures: Seq::empty() },
                ));
            },
        }
        self.needs_render = true;
    }

    /// Add a texture to `layer`, as `add_rect` adds a rectangle.
    pub fn add_texture(&mut self, layer: RenderLayer, cmd: T)
        ensures
            layers_view(final(self).layers@) == with_texture(layers_view(old(self).layers@), layer, cmd),
            final(self).needs_render,
            final(self).output_idx == old(self).output_idx,
            final(self).output_width == old(self).output_width,
            final(self).output_height == old(self).output_height,
            final(self).clear_color == old(self).clear_color,
    {
        let ghost lv = layers_view(self.layers@);
        match self.find_group(layer) {
            Some(i) => {
                let mut g = self.layers.remove(i);
                g.textures.push(cmd);
                self.layers.insert(i, g);
                assert(layers_view(self.layers@) =~= lv.update(
                    i as int,
                    LayerView { textures: lv[i as int].textures.push(cmd), ..lv[i as int] },
                ));
            },
            None => {
                let mut textures: Vec<T> = Vec::new();
                textures.push(cmd);
                self.layers.push(LayerDrawCommand { layer, rects: Vec::new(), textures });
                assert(layers_view(self.layers@) =~= lv.push(
                    LayerView { layer, rects: Seq::empty(), textures: seq![cmd] },
                ));
            },
        }
        self.needs_render = true;
    }

    /// Put the groups in drawing order, groups of one layer keeping their
    /// order.
    pub fn sort_layers(&mut self)
        ensures
            layers_view(final(self).layers@) == sort_groups(layers_view(old(self).layers@)),
            final(self).needs_render == old(self).needs_render,
            final(self).output_idx == old(self).output_idx,
            final(self).output_width == old(self).output_width,
            final(self).output_height == old(self).output_height,
            final(self).clear_color == old(self).clear_color,
    {
        let ghost all = layers_view(self.layers@);
        let mut rest: Vec<LayerDrawCommand<C, T>> = Vec::new();
        std::mem::swap(&mut rest, &mut self.layers);
        let mut out: Vec<LayerDrawCommand<C, T>> = Vec::new();
        let ghost mut k: int = 0;
        assert(all.take(0) =~= Seq::<LayerView<C, T>>::empty());
        assert(layers_view(rest@) =~= all.skip(0));
        while rest.len() > 0
            invariant
                0 <= k <= all.len(),
                rest@.len() + k == all.len(),
                layers_view(rest@) == all.skip(k),
                layers_view(out@) == sort_groups(all.take(k)),
            decreases rest.len(),
        {
            let ghost before = layers_view(out@);
            let ghost old_rest = rest@;
            let x = rest.remove(0);
            proof {
                assert(layers_view(old_rest)[0] == old_rest[0].view_of());
                assert(all.skip(k)[0] == all[k]);
                assert(x.view_of() == all[k]);
                assert(layers_view(rest@) =~= all.skip(k + 1)) by {
                    assert forall|m: int| 0 <= m < rest@.len() implies #[trigger] layers_view(rest@)[m]
                        == all.skip(k + 1)[m] by {
                        assert(rest@[m] == old_rest[m + 1]);
                        assert(layers_view(old_rest)[m + 1] == all.skip(k)[m + 1]);
                    }
                }
            }
            let rx = rank_of(x.layer);
            let mut j: usize = 0;
            while j < out.len() && !(rx < rank_of(out[j].layer))
                invariant
                    j <= out@.len(),
                    before == layers_view(out@),
                    rx == layer_rank(x.layer),
                    forall|m: int| 0 <= m < j ==> !layer_after(#[trigger] before[m], x.view_of()),
                decreases out.len() - j,
            {
                j = j + 1;
            }
            proof {
                lemma_insert_group_at(before, x.view_of(), j as int);
                assert(all.take(k + 1).drop_last() =~= all.take(k));
            }
            out.insert(j, x);
            proof {
                assert(layers_view(out@) =~= before.insert(j as int, all[k]));
                k = k + 1;
            }
        }
        assert(all.take(k) =~= all);
        self.layers = out;
    }

    /// The number of draw commands in the pass.
    pub fn total_draws(&self) -> (n: usize)
        requires
            draws(layers_view(self.layers@)) <= usize::MAX,
        ensures
            n == draws(layers_view(self.layers@)),
    {
        let ghost lv = layers_view(self.layers@);
        let mut n: usize = 0;
        let mut i: usize = 0;
        while i < self.layers.len()
            invariant
                i <= self.layers@.len(),
                lv == layers_view(self.layers@),
                draws(lv) <= usize::MAX,
                n == draws(lv.take(i as int)),
            decreases self.layers.len() - i,
        {
            proof {
                assert(lv.take(i + 1).drop_last() =~= lv.take(i as int));
                lemma_draws_prefix(lv, i + 1);
            }
            n = n + self.layers[i].rects.len() + self.layers[i].textures.len();
            i = i + 1;
        }
        assert(lv.take(i as int) =~= lv);
        n
    }
}

proof fn lemma_draws_prefix<C, T>(ls: Seq<LayerView<C, T>>, k: int)
    requires
        0 <= k <= ls.len(),
    ensures
        draws(ls.take(k)) <= draws(ls),
    decreases ls.len() - k,
{
    if k < ls.len() {
        lemma_draws_prefix(ls, k + 1);
        assert(ls.take(k + 1).drop_last() =~= ls.take(k));
        assert(draws(ls.take(k + 1)) == draws(ls.take(k)) + ls.take(k + 1).last().rects.len()
            + ls.take(k + 1).last().textures.len());
    } else {
        assert(ls.take(k) =~= ls);
    }
}

} // verus!
