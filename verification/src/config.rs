//! Configuration: the rc.xml settings, key bindings, their actions and
//! window rules, and the reading of an rc.xml document.
use vstd::prelude::*;
use crate::types::{PlacementPolicy, TilingEventsMode};
use crate::text::{chars_of, str_eq, parse_int_in, parse_in_range, opt_view};
use crate::xml::{
    XmlStep, XmlEventView, AttrView, attr_view, xml_event_at, reader_document, reader_log,
    tag_attributes, attributes_left, open_reader, next_step, attributes_of, next_attribute,
};
use crate::probe::{path_join, joined_path};
use crate::util::{config_candidates, config_candidates_spec, probe_in_order, take_chosen, chosen, lemma_chosen_is_candidate};
use crate::xdg::entry::strs_view;

verus! {

/// An action of a binding: its name and arguments (each argument name
/// once).
#[derive(Debug, Clone)]
pub struct ActionConfig {
    pub name: String,
    pub args: Vec<(String, String)>,
}

/// A key or mouse binding: the key, its modifiers and its actions.
#[derive(Debug, Clone)]
pub struct Keybind {
    pub key: String,
    pub modifiers: Vec<String>,
    pub actions: Vec<ActionConfig>,
}

/// A window rule: which windows it matches (by identifier and title) and
/// the properties it sets (each property once).
#[derive(Debug, Clone)]
pub struct WindowRule {
    pub identifier: Option<String>,
    pub title: Option<String>,
    pub properties: Vec<(String, String)>,
}

/// Settings of an input device class.
#[derive(Debug, Clone)]
pub struct LibinputDevice {
    pub category: String,
    /// Pointer acceleration, in hundredths (-100 to 100).
    pub pointer_speed_percent: i32,
    pub natural_scroll: bool,
    pub tap: bool,
}

/// The compositor settings read from rc.xml.
#[derive(Debug, Clone)]
pub struct RcXml {
    pub config_file: Option<String>,
    pub config_dir: Option<String>,
    pub merge_config: bool,
    pub theme_name: String,
    pub gap: i32,
    pub placement_policy: PlacementPolicy,
    pub xdg_shell_server_side_deco: bool,
    pub ssd_keep_border: bool,
    pub hide_maximized_window_titlebar: bool,
    pub kb_layout_per_window: bool,
    pub repeat_rate: i32,
    pub repeat_delay: i32,
    pub double_click_time: u32,
    pub raise_on_focus: bool,
    pub raise_on_focus_delay_ms: u32,
    pub focus_follow_mouse: bool,
    pub snap_tiling_events_mode: TilingEventsMode,
    pub snap_top_maximize: bool,
    pub resize_indicator: bool,
    pub primary_selection: bool,
    /// Magnifier zoom, in hundredths (200 is twice the size).
    pub magnifier_scale_percent: u32,
    pub keybinds: Vec<Keybind>,
    pub mousebinds: Vec<Keybind>,
    pub window_rules: Vec<WindowRule>,
    pub libinput_devices: Vec<LibinputDevice>,
}

/// An event of an rc.xml document as the settings reader takes it: the
/// element's name for a start, end or empty tag, and for an empty tag
/// its attributes in order, a malformed one as `None`.
pub enum XmlEvent {
    Start(String),
    End(String),
    Empty(String, Vec<Option<(String, String)>>),
    Eof,
    Failed,
    Other,
}

/// The views of attributes as read.
pub open spec fn attr_views(attrs: Seq<Option<(String, String)>>) -> Seq<AttrView> {
    attrs.map_values(|a: Option<(String, String)>| attr_view(a))
}

/// The event that `ev` stands for.
pub open spec fn event_view(ev: XmlEvent) -> XmlEventView {
    match ev {
        XmlEvent::Start(n) => XmlEventView::Start(n@),
        XmlEvent::End(n) => XmlEventView::End(n@),
        XmlEvent::Empty(n, attrs) => XmlEventView::Empty(n@, attr_views(attrs@)),
        XmlEvent::Eof => XmlEventView::Eof,
        XmlEvent::Failed => XmlEventView::Failed,
        XmlEvent::Other => XmlEventView::Other,
    }
}

/// Where the settings reader stands: outside the sections it reads,
/// inside `<core>`, inside `<keyboard>`, or finished.
#[derive(Debug, Clone, Copy, PartialEq, Eq, Structural)]
pub enum ParseState {
    Top,
    Core,
    Keyboard,
    Done,
}

/// The state after `ev` in state `st`. At the top level `<core>` and
/// `<keyboard>` open their sections, and the end of the document or an
/// error finishes; in a section its end tag returns to the top level,
/// the end of the document leaves it (the next event, again the end,
/// then finishes), and errors are passed over.
pub open spec fn next_state(st: ParseState, ev: XmlEventView) -> ParseState {
    match st {
        ParseState::Top => match ev {
            XmlEventView::Start(n) => if n == "core"@ {
                ParseState::Core
            } else if n == "keyboard"@ {
                ParseState::Keyboard
            } else {
                ParseState::Top
            },
            XmlEventView::Eof => ParseState::Done,
            XmlEventView::Failed => ParseState::Done,
            _ => ParseState::Top,
        },
        ParseState::Core => match ev {
            XmlEventView::End(n) => if n == "core"@ {
                ParseState::Top
            } else {
                ParseState::Core
            },
            XmlEventView::Eof => ParseState::Top,
            _ => ParseState::Core,
        },
        ParseState::Keyboard => match ev {
            XmlEventView::End(n) => if n == "keyboard"@ {
                ParseState::Top
            } else {
                ParseState::Keyboard
            },
            XmlEventView::Eof => ParseState::Top,
            _ => ParseState::Keyboard,
        },
        ParseState::Done => ParseState::Done,
    }
}

/// Once the reading is finished, no event changes the state, the gap or
/// the bindings.
pub proof fn lemma_done_is_final(ev: XmlEventView, gap: int)
    ensures
        next_state(ParseState::Done, ev) == ParseState::Done,
        gap_after(ParseState::Done, ev, gap) == gap,
        key_added(ParseState::Done, ev) is None,
{
}

/// What `str::parse::<i32>` reads from `s`.
pub open spec fn parse_i32(s: Seq<char>) -> Option<int> {
    parse_in_range(s, true, i32::MIN as int, i32::MAX as int)
}

/// The gap after the attributes of `<gap .../>`: the last well-formed
/// `value` attribute that reads as an `i32`, else `gap` unchanged.
pub open spec fn gap_from(attrs: Seq<AttrView>, gap: int) -> int
    decreases attrs.len(),
{
    if attrs.len() == 0 {
        gap
    } else {
        match attrs.last() {
            Some((k, v)) => if k == "value"@ && parse_i32(v) is Some {
                parse_i32(v).unwrap()
            } else {
                gap_from(attrs.drop_last(), gap)
            },
            None => gap_from(attrs.drop_last(), gap),
        }
    }
}

/// The key of `<keybind .../>`: the value of its last well-formed `key`
/// attribute, empty where there is none.
pub open spec fn key_from(attrs: Seq<AttrView>) -> Seq<char>
    decreases attrs.len(),
{
    if attrs.len() == 0 {
        Seq::empty()
    } else {
        match attrs.last() {
            Some((k, v)) => if k == "key"@ {
                v
            } else {
                key_from(attrs.drop_last())
            },
            None => key_from(attrs.drop_last()),
        }
    }
}

/// The gap after `ev` in state `st`: only `<gap/>` in `<core>` sets it.
pub open spec fn gap_after(st: ParseState, ev: XmlEventView, gap: int) -> int {
    match ev {
        XmlEventView::Empty(n, attrs) => if st == ParseState::Core && n == "gap"@ {
            gap_from(attrs, gap)
        } else {
            gap
        },
        _ => gap,
    }
}

/// The key that `ev` in state `st` binds: `<keybind/>` in `<keyboard>`
/// with a key that is not empty.
pub open spec fn key_added(st: ParseState, ev: XmlEventView) -> Option<Seq<char>> {
    match ev {
        XmlEventView::Empty(n, attrs) => if st == ParseState::Keyboard && n == "keybind"@
            && key_from(attrs).len() > 0 {
            Some(key_from(attrs))
        } else {
            None
        },
        _ => None,
    }
}

/// What reading the events `evs` in order from state `st`, with the gap
/// at `gap`, comes to: the state reached, the gap, and the keys bound, in
/// order.
pub open spec fn fold_events(st: ParseState, evs: Seq<XmlEventView>, gap: int) -> (ParseState, int, Seq<Seq<char>>)
    decreases evs.len(),
{
    if evs.len() == 0 {
        (st, gap, Seq::empty())
    } else {
        let r = fold_events(st, evs.drop_last(), gap);
        let ev = evs.last();
        (
            next_state(r.0, ev),
            gap_after(r.0, ev, r.1),
            match key_added(r.0, ev) {
                Some(k) => r.2.push(k),
                None => r.2,
            },
        )
    }
}

/// Once the reading is finished, later events change nothing.
pub proof fn lemma_fold_done(st: ParseState, a: Seq<XmlEventView>, b: Seq<XmlEventView>, gap: int)
    requires
        fold_events(st, a, gap).0 == ParseState::Done,
    ensures
        fold_events(st, a + b, gap) == fold_events(st, a, gap),
    decreases b.len(),
{
    if b.len() == 0 {
        assert(a + b =~= a);
    } else {
        assert((a + b).drop_last() =~= a + b.drop_last());
        lemma_fold_done(st, a, b.drop_last(), gap);
    }
}

/// The first `n` events of the document `doc`.
pub open spec fn doc_events(doc: Seq<char>, n: nat) -> Seq<XmlEventView> {
    Seq::new(n, |k: int| xml_event_at(doc, k))
}

/// `rc` after reading the events `evs` from state `st`, which come to
/// `r` (see `fold_events`): every setting but the gap and the key
/// bindings kept, the gap that of `r`, and a binding with each key of `r`
/// added, in order, without modifiers or actions.
pub open spec fn read_into(rc: RcXml, old_rc: RcXml, r: (ParseState, int, Seq<Seq<char>>)) -> bool {
    let n = old_rc.keybinds@.len();
    &&& rc.same_but_parsed(old_rc)
    &&& rc.gap == r.1
    &&& rc.keybinds@.len() == n + r.2.len()
    &&& rc.keybinds@.take(n as int) == old_rc.keybinds@
    &&& forall|j: int| 0 <= j < r.2.len() ==> {
        &&& (#[trigger] rc.keybinds@[n + j]).key@ == r.2[j]
        &&& rc.keybinds@[n + j].modifiers@.len() == 0
        &&& rc.keybinds@[n + j].actions@.len() == 0
    }
}

/// The view of an optional string slice.
pub open spec fn opt_str(o: Option<&str>) -> Option<Seq<char>> {
    match o {
        Some(x) => Some(x@),
        None => None,
    }
}

/// The places the settings may be read from (see
/// `RcXml::config_path_candidates`).
pub open spec fn rc_candidates(
    config_file: Option<Seq<char>>,
    config_dir: Option<Seq<char>>,
    config_home: Option<&str>,
    config_dirs: Option<&str>,
) -> Seq<Seq<char>> {
    (match config_file {
        Some(f) => seq![f],
        None => Seq::<Seq<char>>::empty(),
    }) + (match config_dir {
        Some(d) => seq![joined_path(d, "rc.xml"@)],
        None => Seq::<Seq<char>>::empty(),
    }) + config_candidates_spec("labwc/rc.xml"@, config_home, config_dirs)
}

impl RcXml {
    /// The built-in settings.
    pub open spec fn is_default(self) -> bool {
        &&& self.config_file is None
        &&& self.config_dir is None
        &&& !self.merge_config
        &&& self.theme_name@ == "default"@
        &&& self.gap == 0
        &&& self.placement_policy == PlacementPolicy::Center
        &&& self.xdg_shell_server_side_deco
        &&& !self.ssd_keep_border
        &&& !self.hide_maximized_window_titlebar
        &&& !self.kb_layout_per_window
        &&& self.repeat_rate == 25
        &&& self.repeat_delay == 600
        &&& self.double_click_time == 400
        &&& !self.raise_on_focus
        &&& self.raise_on_focus_delay_ms == 0
        &&& !self.focus_follow_mouse
        &&& self.snap_tiling_events_mode == TilingEventsMode::Never
        &&& self.snap_top_maximize
        &&& self.resize_indicator
        &&& self.primary_selection
        &&& self.magnifier_scale_percent == 200
        &&& self.keybinds@.len() == 0
        &&& self.mousebinds@.len() == 0
        &&& self.window_rules@.len() == 0
        &&& self.libinput_devices@.len() == 0
    }

    /// `self` and `other` agree on every setting but the gap and the key
    /// bindings, which the document reader sets.
    pub open spec fn same_but_parsed(self, other: RcXml) -> bool {
        &&& self.config_file == other.config_file
        &&& self.config_dir == other.config_dir
        &&& self.same_but_sources(other)
    }

    /// `self` and `other` agree on every setting but the gap, the key
    /// bindings and where the settings come from.
    pub open spec fn same_but_sources(self, other: RcXml) -> bool {
        &&& self.merge_config == other.merge_config
        &&& self.theme_name == other.theme_name
        &&& self.placement_policy == other.placement_policy
        &&& self.xdg_shell_server_side_deco == other.xdg_shell_server_side_deco
        &&& self.ssd_keep_border == other.ssd_keep_border
        &&& self.hide_maximized_window_titlebar == other.hide_maximized_window_titlebar
        &&& self.kb_layout_per_window == other.kb_layout_per_window
        &&& self.repeat_rate == other.repeat_rate
        &&& self.repeat_delay == other.repeat_delay
        &&& self.double_click_time == other.double_click_time
        &&& self.raise_on_focus == other.raise_on_focus
        &&& self.raise_on_focus_delay_ms == other.raise_on_focus_delay_ms
        &&& self.focus_follow_mouse == other.focus_follow_mouse
        &&& self.snap_tiling_events_mode == other.snap_tiling_events_mode
        &&& self.snap_top_maximize == other.snap_top_maximize
        &&& self.resize_indicator == other.resize_indicator
        &&& self.primary_selection == other.primary_selection
        &&& self.magnifier_scale_percent == other.magnifier_scale_percent
        &&& self.mousebinds == other.mousebinds
        &&& self.window_rules == other.window_rules
        &&& self.libinput_devices == other.libinput_devices
    }

    /// The built-in settings.
    pub fn new() -> (r: Self)
        ensures
            r.is_default(),
    {
        Self::default()
    }

    /// Take `ev`, read in state `state`: set the gap from `<gap/>` in
    /// `<core>`, add a binding for `<keybind/>` in `<keyboard>`, and
    /// return the next state.
    pub fn apply_event(&mut self, state: ParseState, ev: &XmlEvent) -> (next: ParseState)
        ensures
            next == next_state(state, event_view(*ev)),
            final(self).gap == gap_after(state, event_view(*ev), old(self).gap as int),
            final(self).same_but_parsed(*old(self)),
            match key_added(state, event_view(*ev)) {
                Some(k) => {
                    &&& final(self).keybinds@.len() == old(self).keybinds@.len() + 1
                    &&& final(self).keybinds@.drop_last() == old(self).keybinds@
                    &&& final(self).keybinds@.last().key@ == k
                    &&& final(self).keybinds@.last().modifiers@.len() == 0
                    &&& final(self).keybinds@.last().actions@.len() == 0
                },
                None => final(self).keybinds@ == old(self).keybinds@,
            },
    {
        match state {
            ParseState::Top => match ev {
                XmlEvent::Start(n) => {
                    if str_eq(n.as_str(), "core") {
                        ParseState::Core
                    } else if str_eq(n.as_str(), "keyboard") {
                        ParseState::Keyboard
                    } else {
                        ParseState::Top
                    }
                },
                XmlEvent::Eof => ParseState::Done,
                XmlEvent::Failed => ParseState::Done,
                _ => ParseState::Top,
            },
            ParseState::Core => match ev {
                XmlEvent::End(n) => {
                    if str_eq(n.as_str(), "core") {
                        ParseState::Top
                    } else {
                        ParseState::Core
                    }
                },
                XmlEvent::Empty(n, attrs) => {
                    if str_eq(n.as_str(), "gap") {
                        self.gap = gap_value(attrs, self.gap);
                    }
                    ParseState::Core
                },
                XmlEvent::Eof => ParseState::Top,
                _ => ParseState::Core,
            },
            ParseState::Keyboard => match ev {
                XmlEvent::End(n) => {
                    if str_eq(n.as_str(), "keyboard") {
                        ParseState::Top
                    } else {
                        ParseState::Keyboard
                    }
                },
                XmlEvent::Empty(n, attrs) => {
                    if str_eq(n.as_str(), "keybind") {
                        let key = key_value(attrs);
                        if !key.as_str().is_empty() {
                            self.keybinds.push(Keybind { key, modifiers: Vec::new(), actions: Vec::new() });
                        }
                    }
                    ParseState::Keyboard
                },
                XmlEvent::Eof => ParseState::Top,
                _ => ParseState::Keyboard,
            },
            ParseState::Done => ParseState::Done,
        }
    }

    /// Take the events `evs` in order, from state `state`, as
    /// `apply_event` does each, and return the state reached.
    pub fn apply_events(&mut self, state: ParseState, evs: &Vec<XmlEvent>) -> (next: ParseState)
        ensures
            next == fold_events(state, evs@.map_values(|e: XmlEvent| event_view(e)), old(self).gap as int).0,
            read_into(*final(self), *old(self), fold_events(state, evs@.map_values(|e: XmlEvent| event_view(e)), old(self).gap as int)),
    {
        let ghost start = *self;
        let ghost views = evs@.map_values(|e: XmlEvent| event_view(e));
        let mut st = state;
        let mut i: usize = 0;
        proof {
            lemma_read_into_start(*self);
            assert(views.take(0) =~= Seq::<XmlEventView>::empty());
        }
        while i < evs.len()
            invariant
                i <= evs.len(),
                views == evs@.map_values(|e: XmlEvent| event_view(e)),
                st == fold_events(state, views.take(i as int), start.gap as int).0,
                read_into(*self, start, fold_events(state, views.take(i as int), start.gap as int)),
            decreases evs.len() - i,
        {
            let ghost before = *self;
            let ghost r = fold_events(state, views.take(i as int), start.gap as int);
            assert(views.take(i + 1).drop_last() =~= views.take(i as int));
            assert(views.take(i + 1).last() == event_view(evs@[i as int]));
            st = self.apply_event(st, &evs[i]);
            proof {
                lemma_read_into_step(*self, before, start, r, event_view(evs@[i as int]));
            }
            i = i + 1;
        }
        assert(views.take(i as int) =~= views);
        st
    }
}

/// Nothing read yet: `rc` is as it was, with nothing added.
proof fn lemma_read_into_start(rc: RcXml)
    ensures
        forall|st: ParseState| #[trigger] read_into(rc, rc, fold_events(st, Seq::<XmlEventView>::empty(), rc.gap as int)),
{
    assert forall|st: ParseState| #[trigger] read_into(rc, rc, fold_events(st, Seq::<XmlEventView>::empty(), rc.gap as int)) by {
        assert(rc.keybinds@.take(rc.keybinds@.len() as int) =~= rc.keybinds@);
    }
}

/// One more event, taken by `apply_event`, keeps `read_into`.
proof fn lemma_read_into_step(
    now: RcXml,
    before: RcXml,
    start: RcXml,
    r: (ParseState, int, Seq<Seq<char>>),
    ev: XmlEventView,
)
    requires
        read_into(before, start, r),
        now.gap == gap_after(r.0, ev, before.gap as int),
        now.same_but_parsed(before),
        match key_added(r.0, ev) {
            Some(k) => {
                &&& now.keybinds@.len() == before.keybinds@.len() + 1
                &&& now.keybinds@.drop_last() == before.keybinds@
                &&& now.keybinds@.last().key@ == k
                &&& now.keybinds@.last().modifiers@.len() == 0
                &&& now.keybinds@.last().actions@.len() == 0
            },
            None => now.keybinds@ == before.keybinds@,
        },
    ensures
        read_into(
            now,
            start,
            (
                next_state(r.0, ev),
                gap_after(r.0, ev, r.1),
                match key_added(r.0, ev) {
                    Some(k) => r.2.push(k),
                    None => r.2,
                },
            ),
        ),
{
    let n = start.keybinds@.len();
    match key_added(r.0, ev) {
        Some(k) => {
            assert(now.keybinds@.take(n as int) =~= before.keybinds@.take(n as int)) by {
                assert forall|j: int| 0 <= j < n implies now.keybinds@[j] == before.keybinds@[j] by {
                    assert(now.keybinds@.drop_last()[j] == now.keybinds@[j]);
                }
            }
            assert forall|j: int| 0 <= j < r.2.push(k).len() implies {
                &&& (#[trigger] now.keybinds@[n + j]).key@ == r.2.push(k)[j]
                &&& now.keybinds@[n + j].modifiers@.len() == 0
                &&& now.keybinds@[n + j].actions@.len() == 0
            } by {
                if j < r.2.len() {
                    assert(now.keybinds@.drop_last()[n + j] == now.keybinds@[n + j]);
                    assert(before.keybinds@[n + j].key@ == r.2[j]);
                }
            }
        },
        None => {},
    }
}

/// The gap after the attributes `attrs` of `<gap/>`.
fn gap_value(attrs: &Vec<Option<(String, String)>>, gap: i32) -> (r: i32)
    ensures
        r == gap_from(attr_views(attrs@), gap as int),
{
    let mut g = gap;
    let mut i: usize = 0;
    while i < attrs.len()
        invariant
            i <= attrs.len(),
            g == gap_from(attr_views(attrs@.take(i as int)), gap as int),
        decreases attrs.len() - i,
    {
        assert(attr_views(attrs@.take(i + 1)).drop_last() =~= attr_views(attrs@.take(i as int)));
        assert(attr_views(attrs@.take(i + 1)).last() == attr_view(attrs@[i as int]));
        match &attrs[i] {
            Some(p) => {
                if str_eq(p.0.as_str(), "value") {
                    let cv = chars_of(p.1.as_str());
                    assert(cv@.subrange(0, cv@.len() as int) =~= cv@);
                    match parse_int_in(&cv, 0, cv.len(), true, -2147483648i64, 2147483647i64) {
                        Some(x) => {
                            g = x as i32;
                        },
                        None => {},
                    }
                }
            },
            None => {},
        }
        i = i + 1;
    }
    assert(attrs@.take(i as int) =~= attrs@);
    g
}

/// The key of `<keybind/>` with the attributes `attrs`.
fn key_value(attrs: &Vec<Option<(String, String)>>) -> (r: String)
    ensures
        r@ == key_from(attr_views(attrs@)),
{
    let mut k = String::new();
    let mut i: usize = 0;
    while i < attrs.len()
        invariant
            i <= attrs.len(),
            k@ == key_from(attr_views(attrs@.take(i as int))),
        decreases attrs.len() - i,
    {
        assert(attr_views(attrs@.take(i + 1)).drop_last() =~= attr_views(attrs@.take(i as int)));
        assert(attr_views(attrs@.take(i + 1)).last() == attr_view(attrs@[i as int]));
        match &attrs[i] {
            Some(p) => {
                if str_eq(p.0.as_str(), "key") {
                    k = p.1.clone();
                }
            },
            None => {},
        }
        i = i + 1;
    }
    assert(attrs@.take(i as int) =~= attrs@);
    k
}

/// The next event of `reader`, with the attributes of an empty tag read
/// into a list.
fn read_event<'a>(reader: &mut quick_xml::Reader<&'a [u8]>) -> (ev: XmlEvent)
    ensures
        event_view(ev) == xml_event_at(reader_document(*old(reader)), reader_log(*old(reader)).len() as int),
        reader_document(*final(reader)) == reader_document(*old(reader)),
        reader_log(*final(reader)) == reader_log(*old(reader)).push(event_view(ev)),
{
    let step = next_step(reader);
    match step {
        XmlStep::Start(n) => XmlEvent::Start(n),
        XmlStep::End(n) => XmlEvent::End(n),
        XmlStep::Empty(n, tag) => {
            let mut attrs: Vec<Option<(String, String)>> = Vec::new();
            let mut it = attributes_of(&tag);
            loop
                invariant
                    attr_views(attrs@) + attributes_left(it) == tag_attributes(tag),
                ensures
                    attributes_left(it).len() == 0,
                    attr_views(attrs@) + attributes_left(it) == tag_attributes(tag),
                decreases attributes_left(it).len(),
            {
                let ghost left = attributes_left(it);
                match next_attribute(&mut it) {
                    Some(a) => {
                        assert(attr_views(attrs@.push(a)) =~= attr_views(attrs@).push(attr_view(a)));
                        assert(left =~= seq![left[0]] + left.drop_first());
                        attrs.push(a);
                        assert(attr_views(attrs@) + attributes_left(it) =~= tag_attributes(tag));
                    },
                    None => break,
                }
            }
            assert(attr_views(attrs@) + attributes_left(it) =~= attr_views(attrs@));
            XmlEvent::Empty(n, attrs)
        },
        XmlStep::Eof => XmlEvent::Eof,
        XmlStep::Failed => XmlEvent::Failed,
        XmlStep::Other => XmlEvent::Other,
    }
}

impl RcXml {
    /// Read the settings of the rc.xml document `content`: the gap from
    /// `<core><gap value=".."/></core>` and a key binding for each
    /// `<keyboard><keybind key=".."/></keyboard>` with a key, as
    /// `apply_event` takes each event of the document in turn
    /// (`xml_event_at`), until the reading is finished. It takes at most
    /// as many events as the document has characters, and two more.
    pub fn parse_xml(&mut self, content: &str)
        ensures
            read_into(*final(self), *old(self), fold_events(ParseState::Top, doc_events(content@, content@.len() + 2), old(self).gap as int)),
    {
        let ghost start = *self;
        let ghost doc = content@;
        let n = content.unicode_len();
        let budget: u128 = (n as u128) + 2;
        let ghost all = doc_events(doc, (doc.len() + 2) as nat);
        let mut reader = open_reader(content);
        let mut state = ParseState::Top;
        let mut i: u128 = 0;
        proof {
            lemma_read_into_start(*self);
            assert(doc_events(doc, 0) =~= Seq::<XmlEventView>::empty());
            assert(reader_log(reader) =~= doc_events(doc, 0));
        }
        while i < budget && state != ParseState::Done
            invariant
                i <= budget,
                budget == doc.len() + 2,
                all == doc_events(doc, (doc.len() + 2) as nat),
                reader_document(reader) == doc,
                reader_log(reader) == doc_events(doc, i as nat),
                state == fold_events(ParseState::Top, doc_events(doc, i as nat), start.gap as int).0,
                read_into(*self, start, fold_events(ParseState::Top, doc_events(doc, i as nat), start.gap as int)),
            decreases budget - i,
        {
            let ghost before = *self;
            let ghost r = fold_events(ParseState::Top, doc_events(doc, i as nat), start.gap as int);
            let ev = read_event(&mut reader);
            assert(doc_events(doc, (i + 1) as nat).drop_last() =~= doc_events(doc, i as nat));
            assert(doc_events(doc, (i + 1) as nat).last() == event_view(ev));
            assert(reader_log(reader) =~= doc_events(doc, (i + 1) as nat));
            state = self.apply_event(state, &ev);
            proof {
                lemma_read_into_step(*self, before, start, r, event_view(ev));
            }
            i = i + 1;
        }
        proof {
            if state == ParseState::Done {
                assert(all =~= doc_events(doc, i as nat) + all.skip(i as int));
                lemma_fold_done(ParseState::Top, doc_events(doc, i as nat), all.skip(i as int), start.gap as int);
            } else {
                assert(all =~= doc_events(doc, i as nat));
            }
        }
    }

    /// The places the settings may be read from, in order: `config_file`,
    /// `rc.xml` in `config_dir`, then `labwc/rc.xml` under the user's
    /// configuration directory and each directory of `config_dirs` (see
    /// `config_candidates`).
    pub fn config_path_candidates(&self, config_home: Option<&str>, config_dirs: Option<&str>) -> (r: Vec<String>)
        ensures
            strs_view(r@) == rc_candidates(opt_view(self.config_file), opt_view(self.config_dir), config_home, config_dirs),
    {
        let mut r: Vec<String> = Vec::new();
        match &self.config_file {
            Some(f) => r.push(f.clone()),
            None => {},
        }
        match &self.config_dir {
            Some(d) => r.push(path_join(d.as_str(), "rc.xml")),
            None => {},
        }
        let ghost head = strs_view(r@);
        let mut rest = config_candidates("labwc/rc.xml", config_home, config_dirs);
        let ghost tail = strs_view(rest@);
        r.append(&mut rest);
        assert(strs_view(r@) =~= head + tail);
        r
    }

    /// Where to read the settings: the first of `config_path_candidates`
    /// that exists, probed in order. What exists depends on the disk: the
    /// result is the candidate chosen by the answers of the probes (see
    /// `chosen`).
    pub fn find_config_path(&self, config_home: Option<&str>, config_dirs: Option<&str>) -> (r: Option<String>)
        ensures
            exists|answers: Seq<bool>|
                answers.len() <= rc_candidates(opt_view(self.config_file), opt_view(self.config_dir), config_home, config_dirs).len()
                    && opt_view(r) == chosen(
                    rc_candidates(opt_view(self.config_file), opt_view(self.config_dir), config_home, config_dirs),
                    answers,
                ),
            r matches Some(p) ==> exists|i: int|
                0 <= i < rc_candidates(opt_view(self.config_file), opt_view(self.config_dir), config_home, config_dirs).len()
                    && rc_candidates(opt_view(self.config_file), opt_view(self.config_dir), config_home, config_dirs)[i] == p@,
    {
        let cands = self.config_path_candidates(config_home, config_dirs);
        let answers = probe_in_order(&cands, false);
        let r = take_chosen(&cands, &answers);
        proof {
            lemma_chosen_is_candidate(strs_view(cands@), answers@);
        }
        r
    }

    /// Record where the settings come from, `config_file` and
    /// `config_dir`, and find the document to read (`find_config_path`).
    pub fn locate(
        &mut self,
        config_file: Option<&str>,
        config_dir: Option<&str>,
        config_home: Option<&str>,
        config_dirs: Option<&str>,
    ) -> (r: Option<String>)
        ensures
            opt_view(final(self).config_file) == opt_str(config_file),
            opt_view(final(self).config_dir) == opt_str(config_dir),
            final(self).same_but_sources(*old(self)),
            final(self).gap == old(self).gap,
            final(self).keybinds == old(self).keybinds,
            exists|answers: Seq<bool>|
                answers.len() <= rc_candidates(opt_str(config_file), opt_str(config_dir), config_home, config_dirs).len()
                    && opt_view(r) == chosen(
                    rc_candidates(opt_str(config_file), opt_str(config_dir), config_home, config_dirs),
                    answers,
                ),
    {
        self.config_file = match config_file {
            Some(f) => Some(f.to_owned()),
            None => None,
        };
        self.config_dir = match config_dir {
            Some(d) => Some(d.to_owned()),
            None => None,
        };
        self.find_config_path(config_home, config_dirs)
    }
}

impl Default for RcXml {
    fn default() -> (r: Self)
        ensures
            r.is_default(),
    {
        RcXml {
            config_file: None,
            config_dir: None,
            merge_config: false,
            theme_name: "default".to_owned(),
            gap: 0,
            placement_policy: PlacementPolicy::Center,
            xdg_shell_server_side_deco: true,
            ssd_keep_border: false,
            hide_maximized_window_titlebar: false,
            kb_layout_per_window: false,
            repeat_rate: 25,
            repeat_delay: 600,
            double_click_time: 400,
            raise_on_focus: false,
            raise_on_focus_delay_ms: 0,
            focus_follow_mouse: false,
            snap_tiling_events_mode: TilingEventsMode::Never,
            snap_top_maximize: true,
            resize_indicator: true,
            primary_selection: true,
            magnifier_scale_percent: 200,
            keybinds: Vec::new(),
            mousebinds: Vec::new(),
            window_rules: Vec::new(),
            libinput_devices: Vec::new(),
        }
    }
}

} // verus!
