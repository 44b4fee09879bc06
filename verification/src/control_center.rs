//! The state behind the control center: the settings it edits, and how
//! its buttons and tabs change them.
use vstd::prelude::*;

use crate::text::push_decimal;

verus! {

broadcast use vstd::std_specs::vec::group_vec_axioms;

/// An autostart program listed in the control center.
#[derive(Debug, Clone)]
pub struct AutostartItem {
    pub name: String,
    pub exec_line: String,
    pub enabled: bool,
    pub source: String,
}

/// The value of a listed autostart program.
pub struct ItemView {
    pub name: Seq<char>,
    pub exec_line: Seq<char>,
    pub enabled: bool,
    pub source: Seq<char>,
}

impl AutostartItem {
    pub open spec fn view_of(&self) -> ItemView {
        ItemView { name: self.name@, exec_line: self.exec_line@, enabled: self.enabled, source: self.source@ }
    }
}

/// The settings the control center edits. `magnifier_scale_percent` and
/// `panel_transparency_percent` are in percent.
#[derive(Debug, Clone)]
pub struct AppState {
    pub gap: i32,
    pub theme_name: String,
    pub placement_idx: usize,
    pub primary_selection: bool,
    pub magnifier_scale_percent: u32,
    pub border_width: i32,
    pub titlebar_height: i32,
    pub active_border: String,
    pub inactive_border: String,
    pub active_title_bg: String,
    pub inactive_title_bg: String,
    pub active_title_fg: String,
    pub inactive_title_fg: String,
    pub button_order: String,
    pub title_justify: usize,
    pub raise_on_focus: bool,
    pub raise_delay: u32,
    pub focus_follow_mouse: bool,
    pub focus_delay: u32,
    pub double_click_time: u32,
    pub repeat_rate: i32,
    pub repeat_delay: i32,
    pub kb_per_window: bool,
    pub xdg_shell_deco: bool,
    pub ssd_keep_border: bool,
    pub hide_maximized_titlebar: bool,
    pub snap_top_maximize: bool,
    pub resize_indicator: bool,
    pub tiling_mode: usize,
    pub workspace_count: usize,
    pub workspace_names: Vec<String>,
    pub panel_height: i32,
    pub panel_position: usize,
    pub panel_auto_hide: bool,
    pub panel_transparency_percent: u32,
    pub panel_blur: bool,
    pub panel_multi: bool,
    pub proto_content_type: bool,
    pub proto_toplevel_drag: bool,
    pub proto_fifo: bool,
    pub proto_pointer_warp: bool,
    pub proto_toplevel_tag: bool,
    pub proto_image_capture: bool,
    pub proto_commit_timing: bool,
    pub nvidia_sync: bool,
    pub nvidia_dmabuf: bool,
    pub selected_tab: usize,
    pub status_msg: String,
    pub dirty: bool,
    pub autostart_entries: Vec<AutostartItem>,
}

/// The autostart programs listed at first.
pub open spec fn default_autostart_items() -> Seq<ItemView> {
    seq![
        ItemView { name: "PolicyKit Agent"@, exec_line: "/usr/lib/polkit-gnome/polkit-gnome-authentication-agent-1"@, enabled: true, source: "system"@ },
        ItemView { name: "PipeWire"@, exec_line: "/usr/bin/pipewire"@, enabled: true, source: "user"@ },
        ItemView { name: "WirePlumber"@, exec_line: "/usr/bin/wireplumber"@, enabled: true, source: "user"@ },
        ItemView { name: "xdg-desktop-portal"@, exec_line: "/usr/lib/xdg-desktop-portal"@, enabled: true, source: "system"@ },
        ItemView { name: "Network Manager Applet"@, exec_line: "nm-applet"@, enabled: true, source: "user"@ },
    ]
}

impl Default for AppState {
    fn default() -> (s: AppState)
        ensures
            s.gap == 0,
            s.theme_name@ == "default"@,
            s.placement_idx == 0,
            s.primary_selection == true,
            s.magnifier_scale_percent == 200,
            s.border_width == 1,
            s.titlebar_height == 26,
            s.active_border@ == "#1a1a1a"@,
            s.inactive_border@ == "#555555"@,
            s.active_title_bg@ == "#1a1a1a"@,
            s.inactive_title_bg@ == "#333333"@,
            s.active_title_fg@ == "#ffffff"@,
            s.inactive_title_fg@ == "#999999"@,
            s.button_order@ == "CIM"@,
            s.title_justify == 1,
            s.raise_on_focus == false,
            s.raise_delay == 0,
            s.focus_follow_mouse == false,
            s.focus_delay == 0,
            s.double_click_time == 400,
            s.repeat_rate == 25,
            s.repeat_delay == 600,
            s.kb_per_window == false,
            s.xdg_shell_deco == true,
            s.ssd_keep_border == false,
            s.hide_maximized_titlebar == false,
            s.snap_top_maximize == true,
            s.resize_indicator == true,
            s.tiling_mode == 0,
            s.workspace_count == 4,
            s.panel_height == 30,
            s.panel_position == 0,
            s.panel_auto_hide == false,
            s.panel_transparency_percent == 95,
            s.panel_blur == true,
            s.panel_multi == true,
            s.proto_content_type == true,
            s.proto_toplevel_drag == true,
            s.proto_fifo == true,
            s.proto_pointer_warp == true,
            s.proto_toplevel_tag == true,
            s.proto_image_capture == true,
            s.proto_commit_timing == true,
            s.nvidia_sync == true,
            s.nvidia_dmabuf == true,
            s.selected_tab == 0,
            s.dirty == false,
            s.workspace_names@.map_values(|x: String| x@) == seq!["1"@, "2"@, "3"@, "4"@],
            s.status_msg@.len() == 0,
            s.autostart_entries@.map_values(|a: AutostartItem| a.view_of()) == default_autostart_items(),
    {
        let mut items: Vec<AutostartItem> = Vec::new();
        items.push(AutostartItem { name: "PolicyKit Agent".to_owned(), exec_line: "/usr/lib/polkit-gnome/polkit-gnome-authentication-agent-1".to_owned(), enabled: true, source: "system".to_owned() });
    items.push(AutostartItem { name: "PipeWire".to_owned(), exec_line: "/usr/bin/pipewire".to_owned(), enabled: true, source: "user".to_owned() });
    items.push(AutostartItem { name: "WirePlumber".to_owned(), exec_line: "/usr/bin/wireplumber".to_owned(), enabled: true, source: "user".to_owned() });
    items.push(AutostartItem { name: "xdg-desktop-portal".to_owned(), exec_line: "/usr/lib/xdg-desktop-portal".to_owned(), enabled: true, source: "system".to_owned() });
    items.push(AutostartItem { name: "Network Manager Applet".to_owned(), exec_line: "nm-applet".to_owned(), enabled: true, source: "user".to_owned() });
        assert(items@.map_values(|a: AutostartItem| a.view_of()) =~= default_autostart_items());
        let names = vec!["1".to_owned(), "2".to_owned(), "3".to_owned(), "4".to_owned()];
        assert(names@.map_values(|x: String| x@) =~= seq!["1"@, "2"@, "3"@, "4"@]);
        AppState {
            gap: 0,
            theme_name: "default".to_owned(),
            placement_idx: 0,
            primary_selection: true,
            magnifier_scale_percent: 200,
            border_width: 1,
            titlebar_height: 26,
            active_border: "#1a1a1a".to_owned(),
            inactive_border: "#555555".to_owned(),
            active_title_bg: "#1a1a1a".to_owned(),
            inactive_title_bg: "#333333".to_owned(),
            active_title_fg: "#ffffff".to_owned(),
            inactive_title_fg: "#999999".to_owned(),
            button_order: "CIM".to_owned(),
            title_justify: 1,
            raise_on_focus: false,
            raise_delay: 0,
            focus_follow_mouse: false,
            focus_delay: 0,
            double_click_time: 400,
            repeat_rate: 25,
            repeat_delay: 600,
            kb_per_window: false,
            xdg_shell_deco: true,
            ssd_keep_border: false,
            hide_maximized_titlebar: false,
            snap_top_maximize: true,
            resize_indicator: true,
            tiling_mode: 0,
            workspace_count: 4,
            workspace_names: names,
            panel_height: 30,
            panel_position: 0,
            panel_auto_hide: false,
            panel_transparency_percent: 95,
            panel_blur: true,
            panel_multi: true,
            proto_content_type: true,
            proto_toplevel_drag: true,
            proto_fifo: true,
            proto_pointer_warp: true,
            proto_toplevel_tag: true,
            proto_image_capture: true,
            proto_commit_timing: true,
            nvidia_sync: true,
            nvidia_dmabuf: true,
            selected_tab: 0,
            status_msg: String::new(),
            dirty: false,
            autostart_entries: items,
        }
    }
}

/// The names given to workspaces `from..to` that have none: their numbers,
/// counting from 1.
pub open spec fn numbered_names(from: nat, to: nat) -> Seq<Seq<char>>
    decreases to - from,
{
    if from >= to {
        Seq::empty()
    } else {
        seq![crate::text::decimal(from + 1)] + numbered_names(from + 1, to)
    }
}

impl AppState {
    /// Applying the settings leaves nothing unsaved.
    pub fn apply(&mut self)
        ensures
            *final(self) == (AppState { dirty: false, ..*old(self) }),
    {
        self.dirty = false;
    }

    /// Reloading the settings leaves nothing unsaved.
    pub fn refresh(&mut self)
        ensures
            *final(self) == (AppState { dirty: false, ..*old(self) }),
    {
        self.dirty = false;
    }

    /// The Apply button: the settings are applied and the status says so.
    pub fn press_apply(&mut self)
        ensures
            final(self).status_msg@ == "Applied"@,
            *final(self) == (AppState { dirty: false, status_msg: final(self).status_msg, ..*old(self) }),
    {
        self.apply();
        self.status_msg = "Applied".to_owned();
    }

    /// The Reload button: the settings are reloaded and the status says so.
    pub fn press_reload(&mut self)
        ensures
            final(self).status_msg@ == "Reloaded"@,
            *final(self) == (AppState { dirty: false, status_msg: final(self).status_msg, ..*old(self) }),
    {
        self.refresh();
        self.status_msg = "Reloaded".to_owned();
    }

    /// Selects tab `i`.
    pub fn select_tab(&mut self, i: usize)
        ensures
            *final(self) == (AppState { selected_tab: i, ..*old(self) }),
    {
        self.selected_tab = i;
    }

    /// The status line is shown once, then cleared.
    pub fn clear_status(&mut self)
        ensures
            final(self).status_msg@.len() == 0,
            *final(self) == (AppState { status_msg: final(self).status_msg, ..*old(self) }),
    {
        self.status_msg = String::new();
    }

    /// Gives each of the first `workspace_count` workspaces a name where it
    /// has none: its number.
    pub fn fill_workspace_names(&mut self)
        requires
            old(self).workspace_count < u32::MAX,
        ensures
            final(self).workspace_names@.map_values(|x: String| x@) == old(self).workspace_names@.map_values(
                |x: String| x@,
            ) + numbered_names(old(self).workspace_names@.len(), old(self).workspace_count as nat),
            final(self).workspace_count == old(self).workspace_count,
    {
        let ghost orig = self.workspace_names@.map_values(|x: String| x@);
        let ghost start = self.workspace_names@.len();
        let count = self.workspace_count;
        if self.workspace_names.len() >= count {
            assert(orig + numbered_names(start, count as nat) =~= orig);
            return;
        }
        assert(orig + numbered_names(start, count as nat) =~= orig + numbered_names(start, count as nat));
        while self.workspace_names.len() < count
            invariant
                start <= self.workspace_names@.len() <= count,
                count < u32::MAX,
                count == self.workspace_count,
                self.workspace_names@.map_values(|x: String| x@) + numbered_names(
                    self.workspace_names@.len(),
                    count as nat,
                ) == orig + numbered_names(start, count as nat),
            decreases count - self.workspace_names.len(),
        {
            let ghost before = self.workspace_names@.map_values(|x: String| x@);
            let i = self.workspace_names.len();
            let mut name = String::new();
            push_decimal(&mut name, (i + 1) as u32);
            assert(name@ =~= crate::text::decimal((i + 1) as nat));
            self.workspace_names.push(name);
            assert(self.workspace_names@.map_values(|x: String| x@) =~= before.push(
                crate::text::decimal((i + 1) as nat),
            ));
            assert(before + numbered_names(i as nat, count as nat) =~= before.push(
                crate::text::decimal((i + 1) as nat),
            ) + numbered_names((i + 1) as nat, count as nat));
        }
        assert(numbered_names(count as nat, count as nat) =~= Seq::<Seq<char>>::empty());
        assert(self.workspace_names@.map_values(|x: String| x@) + Seq::<Seq<char>>::empty()
            =~= self.workspace_names@.map_values(|x: String| x@));
    }
}

} // verus!
