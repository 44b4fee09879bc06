//! Focus: which view is active, and the input mode.
use vstd::prelude::*;
use std::sync::Arc;
use crate::types::{InputMode, ViewLayer};
use crate::window::WindowView;

verus! {

/// The active view and the input mode.
pub struct FocusManager {
    pub active_view: Option<Arc<WindowView>>,
    pub input_mode: InputMode,
}

/// A view that `focus_topmost` may pick: mapped, and not kept below the
/// others.
pub open spec fn takes_focus(v: Arc<WindowView>) -> bool {
    v.mapped && v.layer != ViewLayer::AlwaysOnBottom
}

/// Raising the view with id `id` when `active` is that view keeps it.
pub open spec fn keeps_focus(active: Option<Arc<WindowView>>, id: u64, raise: bool) -> bool {
    &&& raise
    &&& active matches Some(p) && p.id == id
}

/// The index of the last view of `views` (the topmost in stacking order)
/// that takes focus.
pub open spec fn topmost_focusable(views: Seq<Arc<WindowView>>) -> Option<int>
    decreases views.len(),
{
    if views.len() == 0 {
        None
    } else if takes_focus(views.last()) {
        Some(views.len() - 1)
    } else {
        topmost_focusable(views.drop_last())
    }
}

impl FocusManager {
    /// No active view; input passes through to clients.
    pub fn new() -> (m: Self)
        ensures
            m.active_view is None,
            m.input_mode == InputMode::Passthrough,
    {
        FocusManager { active_view: None, input_mode: InputMode::Passthrough }
    }

    /// Make `view` the active view. Raising the view that is already
    /// active changes nothing.
    pub fn focus_view(&mut self, view: &Arc<WindowView>, raise: bool)
        ensures
            final(self).input_mode == old(self).input_mode,
            keeps_focus(old(self).active_view, view.id, raise) ==> final(self).active_view
                == old(self).active_view,
            !keeps_focus(old(self).active_view, view.id, raise) ==> final(self).active_view == Some(*view),
    {
        match &self.active_view {
            Some(prev) => {
                if prev.id == view.id && raise {
                    return;
                }
            },
            None => {},
        }
        self.active_view = Some(Arc::clone(view));
    }

    /// Focus the topmost view of `views` (in stacking order, bottom
    /// first) that is mapped and not kept below the others; where there
    /// is none, no view is active.
    pub fn focus_topmost(&mut self, views: &[Arc<WindowView>])
        ensures
            final(self).input_mode == old(self).input_mode,
            final(self).active_view == match topmost_focusable(views@) {
                Some(i) => Some(views@[i]),
                None => None,
            },
    {
        let mut i = views.len();
        assert(views@.take(i as int) =~= views@);
        while i > 0
            invariant
                i <= views@.len(),
                topmost_focusable(views@) == topmost_focusable(views@.take(i as int)),
                self.input_mode == old(self).input_mode,
            decreases i,
        {
            let v = &views[i - 1];
            assert(views@.take(i as int).last() == views@[i - 1]);
            assert(views@.take(i as int).drop_last() =~= views@.take(i - 1));
            if v.is_focusable() && v.layer != ViewLayer::AlwaysOnBottom {
                self.focus_view(v, false);
                return;
            }
            i = i - 1;
        }
        self.active_view = None;
    }

    /// No view is active.
    pub fn clear_focus(&mut self)
        ensures
            final(self).active_view is None,
            final(self).input_mode == old(self).input_mode,
    {
        self.active_view = None;
    }
}

impl Default for FocusManager {
    fn default() -> (m: Self)
        ensures
            m.active_view is None,
            m.input_mode == InputMode::Passthrough,
    {
        Self::new()
    }
}

} // verus!
