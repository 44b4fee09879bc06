//! The desktop panel: its configuration and state, and its modules
//! (launcher, taskbar, workspace indicator, tray, clock and the others).
use vstd::prelude::*;
use crate::theme::Theme;
use crate::actions::Action;
use crate::workspace::WorkspaceManager;
use crate::xdg::entry::{DesktopEntry, EntryView, substituted, launch_command_of};
use crate::text::{opt_view, has_substring, str_contains, str_eq, lowercase_of, to_lowercase};

verus! {

broadcast use vstd::std_specs::vec::group_vec_axioms;

/// How the panel is laid out. `transparency_percent` is the panel's
/// opacity in percent; `blur_radius` is in pixels.
#[derive(Debug, Clone)]
pub struct PanelConfig {
    pub height: i32,
    pub position: PanelPosition,
    pub auto_hide: bool,
    pub auto_hide_delay_ms: u64,
    pub transparency_percent: u32,
    pub blur_enabled: bool,
    pub blur_radius: u32,
    pub multi_monitor: bool,
}

/// The screen edge the panel sits on.
#[derive(Debug, Clone, Copy, PartialEq, Eq, Structural)]
pub enum PanelPosition {
    Top,
    Bottom,
    Left,
    Right,
}

/// What the panel shows now.
#[derive(Debug, Clone)]
pub struct PanelState {
    pub visible: bool,
    pub hovered: bool,
    pub active_module: Option<usize>,
    pub clock_visible: bool,
    pub calendar_open: bool,
}

/// A module of the panel.
pub enum PanelModule {
    Launcher(LauncherWidget),
    Taskbar(TaskbarWidget),
    WorkspaceIndicator(WorkspaceWidget),
    SystemTray(TrayWidget),
    Clock(ClockWidget),
    PowerMenu(PowerWidget),
    AudioControl(AudioWidget),
    NetworkStatus(NetworkWidget),
    BatteryStatus(BatteryWidget),
    NotificationCenter(NotificationWidget),
    ClipboardHistory(ClipboardWidget),
    SearchLauncher(SearchWidget),
}

/// The application launcher: pinned and recent applications, and the
/// search over all applications.
pub struct LauncherWidget {
    pub pinned_apps: Vec<PinnedApp>,
    pub recent_apps: Vec<RecentApp>,
    pub search_active: bool,
    pub search_query: String,
    pub search_results: Vec<DesktopEntry>,
    pub all_apps: Vec<DesktopEntry>,
}

/// An application pinned to the launcher.
#[derive(Debug, Clone)]
pub struct PinnedApp {
    pub name: String,
    pub icon: Option<String>,
    pub exec_line: Option<String>,
    pub desktop_id: Option<String>,
}

/// A recently launched application.
#[derive(Debug, Clone)]
pub struct RecentApp {
    pub name: String,
    pub exec_line: Option<String>,
    pub launch_count: u32,
}

/// The taskbar.
pub struct TaskbarWidget {
    pub show_labels: bool,
    pub group_windows: bool,
    pub show_previews: bool,
    pub icon_size: i32,
    pub tasks: Vec<TaskbarEntry>,
}

/// A window on the taskbar.
pub struct TaskbarEntry {
    pub window_id: u64,
    pub title: String,
    pub app_id: String,
    pub workspace: String,
    pub focused: bool,
    pub minimized: bool,
}

/// The workspace indicator: how many workspaces, and which is active.
pub struct WorkspaceWidget {
    pub show_labels: bool,
    pub compact: bool,
    pub count: usize,
    pub active: usize,
}

/// The system tray.
pub struct TrayWidget {
    pub icon_size: i32,
    pub items: Vec<TrayItem>,
}

/// An item of the system tray.
pub struct TrayItem {
    pub id: String,
    pub title: String,
    pub icon_name: String,
    pub category: TrayCategory,
    pub attention: bool,
}

/// The category of a tray item.
#[derive(Debug, Clone, Copy, PartialEq, Eq, Structural)]
pub enum TrayCategory {
    ApplicationStatus,
    Communications,
    SystemServices,
    Hardware,
    Other,
}

/// The clock.
pub struct ClockWidget {
    pub format_24h: bool,
    pub show_seconds: bool,
    pub show_date: bool,
    pub timezone: Option<String>,
}

/// The power menu.
pub struct PowerWidget {
    pub show_lock: bool,
    pub show_suspend: bool,
    pub show_hibernate: bool,
    pub show_reboot: bool,
    pub show_shutdown: bool,
}

/// The audio control.
pub struct AudioWidget {
    pub show_volume: bool,
    pub show_mute: bool,
    pub volume: i32,
    pub muted: bool,
}

/// The network status.
pub struct NetworkWidget {
    pub show_wifi: bool,
    pub show_ethernet: bool,
    pub connected: bool,
    pub ssid: Option<String>,
    pub signal_strength: u8,
}

/// The battery status.
pub struct BatteryWidget {
    pub show_percentage: bool,
    pub percentage: u8,
    pub charging: bool,
    pub low_battery: bool,
}

/// The notification center.
pub struct NotificationWidget {
    pub max_visible: usize,
    pub notifications: Vec<Notification>,
}

/// A desktop notification.
#[derive(Debug, Clone)]
pub struct Notification {
    pub id: u64,
    pub app_name: String,
    pub summary: String,
    pub body: String,
    pub urgency: NotificationUrgency,
    pub timestamp: u64,
}

/// The urgency of a notification.
#[derive(Debug, Clone, Copy, PartialEq, Eq, Structural)]
pub enum NotificationUrgency {
    Low,
    Normal,
    Critical,
}

/// The clipboard history.
pub struct ClipboardWidget {
    pub max_entries: usize,
    pub entries: Vec<ClipboardEntry>,
}

/// An entry of the clipboard history.
#[derive(Debug, Clone)]
pub struct ClipboardEntry {
    pub id: u64,
    pub content_preview: String,
    pub content_type: ClipboardContentType,
    pub timestamp: u64,
}

/// What a clipboard entry holds.
#[derive(Debug, Clone, Copy, PartialEq, Eq, Structural)]
pub enum ClipboardContentType {
    Text,
    Image,
    FileList,
}

/// The search launcher: past queries and the results of the current one.
pub struct SearchWidget {
    pub history: Vec<String>,
    pub results: Vec<SearchResult>,
    pub query: String,
}

/// A result of the search launcher.
#[derive(Debug, Clone)]
pub struct SearchResult {
    pub title: String,
    pub description: String,
    pub action: Action,
    pub icon: Option<String>,
}

/// The panel.
pub struct Panel {
    pub config: PanelConfig,
    pub state: PanelState,
    pub modules: Vec<PanelModule>,
}

/// The value of a pinned application.
pub struct PinnedView {
    pub name: Seq<char>,
    pub icon: Option<Seq<char>>,
    pub exec_line: Option<Seq<char>>,
    pub desktop_id: Option<Seq<char>>,
}

impl PinnedApp {
    pub open spec fn view_of(&self) -> PinnedView {
        PinnedView {
            name: self.name@,
            icon: opt_view(self.icon),
            exec_line: opt_view(self.exec_line),
            desktop_id: opt_view(self.desktop_id),
        }
    }
}

pub open spec fn entries_view(s: Seq<DesktopEntry>) -> Seq<EntryView> {
    s.map_values(|e: DesktopEntry| e.view_of())
}

pub open spec fn pinned_view(s: Seq<PinnedApp>) -> Seq<PinnedView> {
    s.map_values(|p: PinnedApp| p.view_of())
}

/// A terminal, web browser or file manager: the kinds pinned to the
/// launcher.
pub open spec fn is_pinned_kind(e: EntryView) -> bool {
    exists|i: int|
        0 <= i < e.categories.len() && (#[trigger] e.categories[i] == "TerminalEmulator"@
            || e.categories[i] == "WebBrowser"@ || e.categories[i] == "FileManager"@)
}

/// The launcher entry of a pinned application: its localized name, icon,
/// command, and the path of its desktop file.
pub open spec fn pinned_of(e: EntryView) -> PinnedView {
    PinnedView {
        name: e.locale_name,
        icon: e.icon,
        exec_line: match e.exec_line {
            Some(x) => Some(substituted(x)),
            None => None,
        },
        desktop_id: Some(e.path),
    }
}

/// The applications pinned, in order.
pub open spec fn pinned_from(apps: Seq<EntryView>) -> Seq<PinnedView>
    decreases apps.len(),
{
    if apps.len() == 0 {
        Seq::empty()
    } else if is_pinned_kind(apps.last()) {
        pinned_from(apps.drop_last()).push(pinned_of(apps.last()))
    } else {
        pinned_from(apps.drop_last())
    }
}

/// An application matches a search: the query, lowercased, occurs in its
/// lowercased name, generic name or comment.
pub open spec fn search_matches(e: EntryView, q: Seq<char>) -> bool {
    let lq = lowercase_of(q);
    ||| has_substring(lowercase_of(e.name), lq)
    ||| (e.generic_name matches Some(g) && has_substring(lowercase_of(g), lq))
    ||| (e.comment matches Some(c) && has_substring(lowercase_of(c), lq))
}

/// The applications matching a search, in order.
pub open spec fn search_hits(apps: Seq<EntryView>, q: Seq<char>) -> Seq<EntryView>
    decreases apps.len(),
{
    if apps.len() == 0 {
        Seq::empty()
    } else if search_matches(apps.last(), q) {
        search_hits(apps.drop_last(), q).push(apps.last())
    } else {
        search_hits(apps.drop_last(), q)
    }
}

/// At most the first 20 of `s`.
pub open spec fn first_twenty(s: Seq<EntryView>) -> Seq<EntryView> {
    if s.len() <= 20 {
        s
    } else {
        s.take(20)
    }
}

/// The position of the first launcher module.
pub open spec fn first_launcher(mods: Seq<PanelModule>) -> Option<int>
    decreases mods.len(),
{
    if mods.len() == 0 {
        None
    } else if mods[0] is Launcher {
        Some(0)
    } else {
        match first_launcher(mods.drop_first()) {
            Some(i) => Some(i + 1),
            None => None,
        }
    }
}

pub(crate) fn is_pinned_entry(e: &DesktopEntry) -> (b: bool)
    ensures
        b == is_pinned_kind(e.view_of()),
{
    let ghost cs = e.view_of().categories;
    let mut i: usize = 0;
    while i < e.categories.len()
        invariant
            i <= e.categories.len(),
            cs == e.view_of().categories,
            forall|j: int|
                0 <= j < i ==> !(#[trigger] cs[j] == "TerminalEmulator"@ || cs[j] == "WebBrowser"@
                    || cs[j] == "FileManager"@),
        decreases e.categories.len() - i,
    {
        let c = e.categories[i].as_str();
        assert(cs[i as int] == c@);
        if str_eq(c, "TerminalEmulator") || str_eq(c, "WebBrowser") || str_eq(c, "FileManager") {
            return true;
        }
        i = i + 1;
    }
    false
}

/// The applications of `apps` pinned to the launcher.
fn pinned_apps_of(apps: &Vec<DesktopEntry>) -> (r: Vec<PinnedApp>)
    ensures
        pinned_view(r@) == pinned_from(entries_view(apps@)),
{
    let mut r: Vec<PinnedApp> = Vec::new();
    let mut i: usize = 0;
    while i < apps.len()
        invariant
            i <= apps.len(),
            pinned_view(r@) == pinned_from(entries_view(apps@.take(i as int))),
        decreases apps.len() - i,
    {
        let ghost before = pinned_view(r@);
        assert(entries_view(apps@.take(i + 1)).drop_last() =~= entries_view(apps@.take(i as int)));
        assert(entries_view(apps@.take(i + 1)).last() == apps@[i as int].view_of());
        let e = &apps[i];
        if is_pinned_entry(e) {
            let p = PinnedApp {
                name: e.locale_name.clone(),
                icon: match &e.icon {
                    Some(x) => Some(x.clone()),
                    None => None,
                },
                exec_line: e.exec_command(),
                desktop_id: Some(e.path.clone()),
            };
            r.push(p);
            assert(pinned_view(r@) =~= before.push(pinned_of(e.view_of())));
        }
        i = i + 1;
    }
    assert(apps@.take(i as int) =~= apps@);
    r
}

/// `s`, lowercased, contains `lq`.
fn lower_contains(s: &str, lq: &str) -> (b: bool)
    ensures
        b == has_substring(lowercase_of(s@), lq@),
{
    let ls = to_lowercase(s);
    str_contains(ls.as_str(), lq)
}

fn entry_matches(e: &DesktopEntry, q: &str, lq: &str) -> (b: bool)
    requires
        lq@ == lowercase_of(q@),
    ensures
        b == search_matches(e.view_of(), q@),
{
    if lower_contains(e.name.as_str(), lq) {
        return true;
    }
    let g = match &e.generic_name {
        Some(g) => lower_contains(g.as_str(), lq),
        None => false,
    };
    if g {
        return true;
    }
    match &e.comment {
        Some(c) => lower_contains(c.as_str(), lq),
        None => false,
    }
}

/// The first 20 applications of `apps` matching the query.
fn search_in(apps: &Vec<DesktopEntry>, q: &str) -> (r: Vec<DesktopEntry>)
    ensures
        entries_view(r@) == first_twenty(search_hits(entries_view(apps@), q@)),
{
    let lq = to_lowercase(q);
    let mut r: Vec<DesktopEntry> = Vec::new();
    let mut i: usize = 0;
    while i < apps.len() && r.len() < 20
        invariant
            i <= apps.len(),
            r@.len() <= 20,
            lq@ == lowercase_of(q@),
            entries_view(r@) == search_hits(entries_view(apps@.take(i as int)), q@),
        decreases apps.len() - i,
    {
        let ghost before = entries_view(r@);
        assert(entries_view(apps@.take(i + 1)).drop_last() =~= entries_view(apps@.take(i as int)));
        assert(entries_view(apps@.take(i + 1)).last() == apps@[i as int].view_of());
        if entry_matches(&apps[i], q, lq.as_str()) {
            let d = apps[i].duplicate();
            r.push(d);
            assert(entries_view(r@) =~= before.push(apps@[i as int].view_of()));
        }
        i = i + 1;
    }
    proof {
        assert(entries_view(apps@.take(i as int)) =~= entries_view(apps@).take(i as int));
        assert(entries_view(r@).len() == r@.len());
        lemma_search_hits_prefix(entries_view(apps@), q@, i as int);
        if i == apps.len() {
            assert(apps@.take(i as int) =~= apps@);
        }
    }
    r
}

/// The hits of a prefix are a prefix of the hits.
proof fn lemma_search_hits_prefix(apps: Seq<EntryView>, q: Seq<char>, k: int)
    requires
        0 <= k <= apps.len(),
        search_hits(apps.take(k), q).len() <= 20,
        k < apps.len() ==> search_hits(apps.take(k), q).len() == 20,
    ensures
        search_hits(apps.take(k), q) == first_twenty(search_hits(apps, q)),
    decreases apps.len() - k,
{
    if k == apps.len() {
        assert(apps.take(k) =~= apps);
    } else {
        lemma_hits_extend(apps, q, k, apps.len() as int);
    }
}

/// The hits of a longer prefix extend those of a shorter one.
proof fn lemma_hits_extend(apps: Seq<EntryView>, q: Seq<char>, k: int, n: int)
    requires
        0 <= k <= n <= apps.len(),
        search_hits(apps.take(k), q).len() == 20,
    ensures
        search_hits(apps.take(n), q).len() >= 20,
        search_hits(apps.take(n), q).take(20) == search_hits(apps.take(k), q),
        n == apps.len() ==> first_twenty(search_hits(apps, q)) == search_hits(apps.take(k), q),
    decreases n - k,
{
    if n == k {
        assert(search_hits(apps.take(n), q).take(20) =~= search_hits(apps.take(k), q));
    } else {
        lemma_hits_extend(apps, q, k, n - 1);
        assert(apps.take(n).drop_last() =~= apps.take(n - 1));
        let h = search_hits(apps.take(n - 1), q);
        if search_matches(apps.take(n).last(), q) {
            assert(h.push(apps.take(n).last()).take(20) =~= h.take(20));
        }
    }
    if n == apps.len() {
        assert(apps.take(n) =~= apps);
    }
}

/// The state after the panel is shown or hidden.
pub open spec fn visibility_toggled(s: PanelState) -> PanelState {
    PanelState { visible: !s.visible, ..s }
}

/// The state after the calendar is opened or closed.
pub open spec fn calendar_toggled(s: PanelState) -> PanelState {
    PanelState { calendar_open: !s.calendar_open, ..s }
}

/// Showing or hiding the panel twice, or clicking the clock twice, leaves
/// the state as it was.
pub proof fn lemma_toggles_twice(s: PanelState)
    ensures
        visibility_toggled(visibility_toggled(s)) == s,
        calendar_toggled(calendar_toggled(s)) == s,
{
}

/// `p` is the panel that `new` builds for a theme whose titlebar is
/// `titlebar` high, over the applications `apps`.
pub open spec fn fresh_panel(p: Panel, titlebar: int, apps: Seq<DesktopEntry>) -> bool {
    &&& p.config.height == titlebar + 4
    &&& p.config.position == PanelPosition::Bottom
    &&& !p.config.auto_hide
    &&& p.config.auto_hide_delay_ms == 500
    &&& p.config.transparency_percent == 95
    &&& p.config.blur_enabled
    &&& p.config.blur_radius == 12
    &&& p.config.multi_monitor
    &&& p.state.visible && !p.state.hovered && p.state.active_module is None
    &&& p.state.clock_visible && !p.state.calendar_open
    &&& p.modules@.len() == 6
    &&& p.modules@[0] matches PanelModule::Launcher(l) && pinned_view(l.pinned_apps@) == pinned_from(
        entries_view(apps),
    ) && l.recent_apps@.len() == 0 && !l.search_active && l.search_query@.len() == 0
        && l.search_results@.len() == 0 && l.all_apps@ == apps
    &&& p.modules@[1] matches PanelModule::Taskbar(t) && t.show_labels && t.group_windows
        && t.show_previews && t.icon_size == 24 && t.tasks@.len() == 0
    &&& p.modules@[2] matches PanelModule::WorkspaceIndicator(w) && !w.show_labels && w.compact
        && w.count == 4 && w.active == 0
    &&& p.modules@[3] matches PanelModule::Clock(c) && c.format_24h && !c.show_seconds
        && c.show_date && c.timezone is None
    &&& p.modules@[4] matches PanelModule::AudioControl(a) && a.show_volume && a.show_mute
        && a.volume == 75 && !a.muted
    &&& p.modules@[5] matches PanelModule::PowerMenu(w) && w.show_lock && w.show_suspend
        && w.show_reboot && w.show_shutdown && !w.show_hibernate
}

impl Panel {
    /// A panel at the bottom, `theme`'s titlebar height plus 4 high, with
    /// a launcher over the applications `all_apps` (pinning the terminals,
    /// web browsers and file managers among them), a taskbar, a workspace
    /// indicator for four workspaces, a clock, an audio control and a
    /// power menu.
    pub fn new(theme: &Theme, all_apps: Vec<DesktopEntry>) -> (p: Panel)
        requires
            theme.titlebar_height <= i32::MAX - 4,
        ensures
            fresh_panel(p, theme.titlebar_height as int, all_apps@),
    {
        let pinned_apps = pinned_apps_of(&all_apps);
        let mut modules: Vec<PanelModule> = Vec::new();
        modules.push(
            PanelModule::Launcher(
                LauncherWidget {
                    pinned_apps,
                    recent_apps: Vec::new(),
                    search_active: false,
                    search_query: String::new(),
                    search_results: Vec::new(),
                    all_apps,
                },
            ),
        );
        modules.push(
            PanelModule::Taskbar(
                TaskbarWidget {
                    show_labels: true,
                    group_windows: true,
                    show_previews: true,
                    icon_size: 24,
                    tasks: Vec::new(),
                },
            ),
        );
        modules.push(
            PanelModule::WorkspaceIndicator(
                WorkspaceWidget { show_labels: false, compact: true, count: 4, active: 0 },
            ),
        );
        modules.push(
            PanelModule::Clock(
                ClockWidget { format_24h: true, show_seconds: false, show_date: true, timezone: None },
            ),
        );
        modules.push(
            PanelModule::AudioControl(
                AudioWidget { show_volume: true, show_mute: true, volume: 75, muted: false },
            ),
        );
        modules.push(
            PanelModule::PowerMenu(
                PowerWidget {
                    show_lock: true,
                    show_suspend: true,
                    show_reboot: true,
                    show_shutdown: true,
                    show_hibernate: false,
                },
            ),
        );
        Panel {
            config: PanelConfig {
                height: theme.titlebar_height + 4,
                position: PanelPosition::Bottom,
                auto_hide: false,
                auto_hide_delay_ms: 500,
                transparency_percent: 95,
                blur_enabled: true,
                blur_radius: 12,
                multi_monitor: true,
            },
            state: PanelState {
                visible: true,
                hovered: false,
                active_module: None,
                clock_visible: true,
                calendar_open: false,
            },
            modules,
        }
    }

    /// Shows or hides the panel.
    pub fn toggle_visibility(&mut self)
        ensures
            final(self).state == visibility_toggled(old(self).state),
            final(self).config == old(self).config,
            final(self).modules == old(self).modules,
    {
        self.state.visible = !self.state.visible;
    }

    /// Opens or closes the calendar.
    pub fn handle_clock_click(&mut self)
        ensures
            final(self).state == calendar_toggled(old(self).state),
            final(self).config == old(self).config,
            final(self).modules == old(self).modules,
    {
        self.state.calendar_open = !self.state.calendar_open;
    }
}

proof fn lemma_first_launcher_at(mods: Seq<PanelModule>, i: int)
    requires
        0 <= i <= mods.len(),
        forall|j: int| 0 <= j < i ==> !(#[trigger] mods[j] is Launcher),
        i == mods.len() || mods[i] is Launcher,
    ensures
        first_launcher(mods) == (if i == mods.len() { None::<int> } else { Some(i) }),
    decreases i,
{
    if i > 0 {
        let t = mods.drop_first();
        assert forall|j: int| 0 <= j < i - 1 implies !(#[trigger] t[j] is Launcher) by {
            assert(t[j] == mods[j + 1]);
        }
        lemma_first_launcher_at(t, i - 1);
    }
}

/// An application named `name` (by name or localized name).
pub open spec fn app_named(e: EntryView, name: Seq<char>) -> bool {
    e.name == name || e.locale_name == name
}

/// The position of the first application named `name` (by name or
/// localized name).
pub open spec fn first_app_named(apps: Seq<EntryView>, name: Seq<char>) -> Option<int>
    decreases apps.len(),
{
    if apps.len() == 0 {
        None
    } else if app_named(apps[0], name) {
        Some(0)
    } else {
        match first_app_named(apps.drop_first(), name) {
            Some(i) => Some(i + 1),
            None => None,
        }
    }
}

proof fn lemma_first_app_named_at(apps: Seq<EntryView>, name: Seq<char>, i: int)
    requires
        0 <= i <= apps.len(),
        forall|j: int| 0 <= j < i ==> !app_named(#[trigger] apps[j], name),
        i == apps.len() || app_named(apps[i], name),
    ensures
        first_app_named(apps, name) == (if i == apps.len() { None::<int> } else { Some(i) }),
    decreases i,
{
    if i > 0 {
        let t = apps.drop_first();
        assert forall|j: int| 0 <= j < i - 1 implies !app_named(#[trigger] t[j], name) by {
            assert(t[j] == apps[j + 1]);
        }
        lemma_first_app_named_at(t, name, i - 1);
    }
}

/// The launcher after a search for `q`: the query recorded, searching
/// while it is not empty, and the first 20 matching applications as
/// results.
pub open spec fn searched(a: PanelModule, b: PanelModule, q: Seq<char>) -> bool {
    match a {
        PanelModule::Launcher(x) => match b {
            PanelModule::Launcher(y) => {
                &&& y.pinned_apps == x.pinned_apps
                &&& y.recent_apps == x.recent_apps
                &&& y.all_apps == x.all_apps
                &&& y.search_active == (q.len() > 0)
                &&& y.search_query@ == q
                &&& entries_view(y.search_results@) == (if q.len() == 0 {
                    Seq::empty()
                } else {
                    first_twenty(search_hits(entries_view(x.all_apps@), q))
                })
            },
            _ => false,
        },
        _ => false,
    }
}

/// The launcher with its applications replaced by `apps`.
pub open spec fn refreshed(a: PanelModule, b: PanelModule, apps: Vec<DesktopEntry>) -> bool {
    match a {
        PanelModule::Launcher(x) => b == PanelModule::Launcher(LauncherWidget { all_apps: apps, ..x }),
        _ => false,
    }
}

/// The module after the workspace indicator learns of `count` workspaces,
/// the active one being `active`; other modules are unchanged.
pub open spec fn with_workspaces(m: PanelModule, count: usize, active: usize) -> PanelModule {
    match m {
        PanelModule::WorkspaceIndicator(w) => PanelModule::WorkspaceIndicator(
            WorkspaceWidget { count, active, ..w },
        ),
        _ => m,
    }
}

impl Panel {
    fn launcher_index(&self) -> (r: Option<usize>)
        ensures
            match r {
                Some(i) => first_launcher(self.modules@) == Some(i as int) && i < self.modules@.len()
                    && self.modules@[i as int] is Launcher,
                None => first_launcher(self.modules@) is None,
            },
    {
        let mut i: usize = 0;
        while i < self.modules.len()
            invariant
                i <= self.modules.len(),
                forall|j: int| 0 <= j < i ==> !(#[trigger] self.modules@[j] is Launcher),
            decreases self.modules.len() - i,
        {
            if matches!(self.modules[i], PanelModule::Launcher(_)) {
                proof {
                    lemma_first_launcher_at(self.modules@, i as int);
                }
                return Some(i);
            }
            i = i + 1;
        }
        proof {
            lemma_first_launcher_at(self.modules@, i as int);
        }
        None
    }

    /// Searches the launcher's applications for `query` (see `searched`);
    /// an empty query clears the search. Without a launcher nothing
    /// changes.
    pub fn search_apps(&mut self, query: &str)
        ensures
            final(self).config == old(self).config,
            final(self).state == old(self).state,
            match first_launcher(old(self).modules@) {
                Some(i) => {
                    &&& final(self).modules@.len() == old(self).modules@.len()
                    &&& forall|j: int|
                        0 <= j < old(self).modules@.len() && j != i ==> #[trigger] final(self).modules@[j]
                            == old(self).modules@[j]
                    &&& searched(old(self).modules@[i], final(self).modules@[i], query@)
                },
                None => final(self).modules == old(self).modules,
            },
    {
        let i = match self.launcher_index() {
            Some(i) => i,
            None => return,
        };
        let mut mods: Vec<PanelModule> = Vec::new();
        std::mem::swap(&mut mods, &mut self.modules);
        let ghost before = mods@;
        let m = mods.remove(i);
        assert(m == before[i as int]);
        match m {
            PanelModule::Launcher(mut l) => {
                let empty = query.is_empty();
                l.search_active = !empty;
                l.search_query = query.to_owned();
                l.search_results = if empty {
                    let v: Vec<DesktopEntry> = Vec::new();
                    assert(entries_view(v@) =~= Seq::<EntryView>::empty());
                    v
                } else {
                    search_in(&l.all_apps, query)
                };
                mods.insert(i, PanelModule::Launcher(l));
            },
            other => {
                mods.insert(i, other);
            },
        }
        std::mem::swap(&mut mods, &mut self.modules);
        proof {
            assert forall|j: int|
                0 <= j < old(self).modules@.len() && j != i implies #[trigger] self.modules@[j]
                    == old(self).modules@[j] by {
                if j < i {
                    assert(self.modules@[j] == before[j]);
                } else {
                    assert(self.modules@[j] == before[j]);
                }
            }
        }
    }

    /// Replaces the launcher's applications by `apps`. Without a launcher
    /// nothing changes.
    pub fn refresh_apps(&mut self, apps: Vec<DesktopEntry>)
        ensures
            final(self).config == old(self).config,
            final(self).state == old(self).state,
            match first_launcher(old(self).modules@) {
                Some(i) => {
                    &&& final(self).modules@.len() == old(self).modules@.len()
                    &&& forall|j: int|
                        0 <= j < old(self).modules@.len() && j != i ==> #[trigger] final(self).modules@[j]
                            == old(self).modules@[j]
                    &&& refreshed(old(self).modules@[i], final(self).modules@[i], apps)
                },
                None => final(self).modules == old(self).modules,
            },
    {
        let i = match self.launcher_index() {
            Some(i) => i,
            None => return,
        };
        let mut mods: Vec<PanelModule> = Vec::new();
        std::mem::swap(&mut mods, &mut self.modules);
        let ghost before = mods@;
        let m = mods.remove(i);
        assert(m == before[i as int]);
        match m {
            PanelModule::Launcher(mut l) => {
                l.all_apps = apps;
                mods.insert(i, PanelModule::Launcher(l));
            },
            other => {
                mods.insert(i, other);
            },
        }
        std::mem::swap(&mut mods, &mut self.modules);
    }

    /// The command that launches the launcher's first application named
    /// `name` (by name or localized name), run in `terminal` where the
    /// entry asks for a terminal; none where there is no launcher, no such
    /// application, or it has no command.
    pub fn launch_app(&self, name: &str, terminal: Option<&str>) -> (r: Option<String>)
        ensures
            opt_view(r) == match first_launcher(self.modules@) {
                Some(i) => match self.modules@[i] {
                    PanelModule::Launcher(l) => match first_app_named(entries_view(l.all_apps@), name@) {
                        Some(k) => launch_command_of(entries_view(l.all_apps@)[k], terminal),
                        None => None,
                    },
                    _ => None,
                },
                None => None,
            },
    {
        let i = match self.launcher_index() {
            Some(i) => i,
            None => return None,
        };
        match &self.modules[i] {
            PanelModule::Launcher(l) => {
                assert(self.modules@[i as int] == PanelModule::Launcher(*l));
                let ghost apps = entries_view(l.all_apps@);
                let mut k: usize = 0;
                while k < l.all_apps.len()
                    invariant
                        k <= l.all_apps.len(),
                        apps == entries_view(l.all_apps@),
                        first_launcher(self.modules@) == Some(i as int),
                        i < self.modules@.len(),
                        self.modules@[i as int] == PanelModule::Launcher(*l),
                        forall|j: int| 0 <= j < k ==> !app_named(#[trigger] apps[j], name@),
                    decreases l.all_apps.len() - k,
                {
                    let e = &l.all_apps[k];
                    assert(apps[k as int] == e.view_of());
                    if str_eq(e.name.as_str(), name) || str_eq(e.locale_name.as_str(), name) {
                        proof {
                            lemma_first_app_named_at(apps, name@, k as int);
                        }
                        return e.launch_command(terminal);
                    }
                    k = k + 1;
                }
                proof {
                    lemma_first_app_named_at(apps, name@, k as int);
                }
                None
            },
            _ => None,
        }
    }

    /// Shows the workspaces of `ws` on every workspace indicator.
    pub fn update_workspaces(&mut self, ws: &WorkspaceManager)
        ensures
            final(self).config == old(self).config,
            final(self).state == old(self).state,
            final(self).modules@.len() == old(self).modules@.len(),
            forall|j: int|
                0 <= j < old(self).modules@.len() ==> #[trigger] final(self).modules@[j] == with_workspaces(
                    old(self).modules@[j],
                    ws.workspaces@.len() as usize,
                    ws.current_idx,
                ),
    {
        let count = ws.workspaces.len();
        let active = ws.current_idx;
        let mut mods: Vec<PanelModule> = Vec::new();
        std::mem::swap(&mut mods, &mut self.modules);
        let ghost orig = mods@;
        let mut j: usize = 0;
        while j < mods.len()
            invariant
                j <= mods.len(),
                mods@.len() == orig.len(),
                forall|k: int| 0 <= k < j ==> #[trigger] mods@[k] == with_workspaces(orig[k], count, active),
                forall|k: int| j <= k < mods@.len() ==> #[trigger] mods@[k] == orig[k],
            decreases mods.len() - j,
        {
            let m = mods.remove(j);
            let n = match m {
                PanelModule::WorkspaceIndicator(mut w) => {
                    w.count = count;
                    w.active = active;
                    PanelModule::WorkspaceIndicator(w)
                },
                other => other,
            };
            mods.insert(j, n);
            j = j + 1;
        }
        std::mem::swap(&mut mods, &mut self.modules);
    }
}

impl Default for Panel {
    /// The panel for the built-in theme, before any application is known
    /// (`refresh_apps` hands it the installed ones).
    fn default() -> (p: Panel)
        ensures
            fresh_panel(p, 26, Seq::empty()),
    {
        let t = Theme::default();
        Panel::new(&t, Vec::new())
    }
}

} // verus!
