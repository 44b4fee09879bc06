//! Classification of the session the compositor runs in.
use vstd::prelude::*;
use crate::text::{chars_of, trim_bounds, trim, starts_with_lit, str_eq};

verus! {

/// The kind of session the compositor was started in.
#[derive(Debug, Clone, Copy, PartialEq, Eq, Structural)]
pub enum SessionType {
    WaylandNested,
    X11Nested,
    DisplayManager,
    Tty,
    Unknown,
}

/// Sessions nested under a parent display server.
pub open spec fn nested(s: SessionType) -> bool {
    s == SessionType::WaylandNested || s == SessionType::X11Nested
}

/// The value of an environment variable is set and not empty.
pub open spec fn set_nonempty(v: Option<&str>) -> bool {
    match v {
        Some(s) => s@.len() > 0,
        None => false,
    }
}

pub open spec fn is_value(v: Option<&str>, lit: Seq<char>) -> bool {
    match v {
        Some(s) => s@ == lit,
        None => false,
    }
}

/// The session type that the environment describes: a parent Wayland
/// display, then a parent X display, then `XDG_SESSION_TYPE`, then a real
/// virtual terminal, then `XDG_VTNR`.
pub open spec fn session_spec(
    wayland_display: Option<&str>,
    display: Option<&str>,
    xdg_session_type: Option<&str>,
    real_tty: bool,
    vtnr_set: bool,
) -> SessionType {
    if set_nonempty(wayland_display) {
        SessionType::WaylandNested
    } else if set_nonempty(display) {
        SessionType::X11Nested
    } else if is_value(xdg_session_type, "wayland"@) {
        SessionType::DisplayManager
    } else if is_value(xdg_session_type, "x11"@) {
        SessionType::X11Nested
    } else if is_value(xdg_session_type, "tty"@) {
        SessionType::Tty
    } else if real_tty || vtnr_set {
        SessionType::Tty
    } else {
        SessionType::Unknown
    }
}

/// Whether the controlling terminal is a real virtual terminal: `/dev/tty`
/// must exist; an active VT named `tty...` decides yes; otherwise the name of
/// standard input's terminal decides (pseudo-terminals are not real VTs);
/// without a name, whether `/dev/tty` is a character device decides.
pub open spec fn tty_is_real_spec(
    dev_tty_exists: bool,
    active_vt: Option<&str>,
    tty_name: Option<&str>,
    dev_tty_is_char_device: bool,
) -> bool {
    if !dev_tty_exists {
        false
    } else if (match active_vt {
        Some(a) => trim(a@).len() > 0 && trim(a@).len() >= 3 && trim(a@).take(3) == "tty"@,
        None => false,
    }) {
        true
    } else {
        match tty_name {
            Some(n) => if (n@.len() >= 4 && n@.take(4) == "pts/"@) || n@ == "ptmx"@ {
                false
            } else {
                n@.len() >= 3 && n@.take(3) == "tty"@
            },
            None => dev_tty_is_char_device,
        }
    }
}

fn opt_nonempty(v: Option<&str>) -> (b: bool)
    ensures
        b == set_nonempty(v),
{
    match v {
        Some(s) => s.len() > 0 || !s.is_empty(),
        None => false,
    }
}

fn opt_is(v: Option<&str>, lit: &str) -> (b: bool)
    ensures
        b == is_value(v, lit@),
{
    match v {
        Some(s) => str_eq(s, lit),
        None => false,
    }
}

fn lit_starts(v: &Vec<char>, lo: usize, hi: usize, lit: &str) -> (b: bool)
    requires
        lo <= hi <= v.len(),
    ensures
        b == (lit@.len() <= hi - lo && v@.subrange(lo as int, lo + lit@.len()) == lit@),
{
    let w = chars_of(lit);
    starts_with_lit(v, lo, hi, w.as_slice())
}

impl SessionType {
    /// Returns `true` for sessions nested under a parent display server.
    pub fn is_nested(&self) -> (b: bool)
        ensures
            b == nested(*self),
    {
        match self {
            SessionType::WaylandNested | SessionType::X11Nested => true,
            _ => false,
        }
    }

    /// A human-readable description of the session type.
    pub fn description(&self) -> (s: &str)
        ensures
            s@ == (match *self {
                SessionType::WaylandNested => "Wayland (nested under parent compositor)"@,
                SessionType::X11Nested => "X11 (nested under X server)"@,
                SessionType::DisplayManager => "Wayland (display manager session)"@,
                SessionType::Tty => "Linux VT / TTY (direct DRM)"@,
                SessionType::Unknown => "unknown (probing DRM)"@,
            }),
    {
        match self {
            SessionType::WaylandNested => "Wayland (nested under parent compositor)",
            SessionType::X11Nested => "X11 (nested under X server)",
            SessionType::DisplayManager => "Wayland (display manager session)",
            SessionType::Tty => "Linux VT / TTY (direct DRM)",
            SessionType::Unknown => "unknown (probing DRM)",
        }
    }

    /// Decide the session type from the values of `WAYLAND_DISPLAY`,
    /// `DISPLAY` and `XDG_SESSION_TYPE` (`None` when unset), whether the
    /// terminal is a real VT, and whether `XDG_VTNR` is set.
    pub fn from_environment(
        wayland_display: Option<&str>,
        display: Option<&str>,
        xdg_session_type: Option<&str>,
        real_tty: bool,
        vtnr_set: bool,
    ) -> (t: SessionType)
        ensures
            t == session_spec(wayland_display, display, xdg_session_type, real_tty, vtnr_set),
    {
        if opt_nonempty(wayland_display) {
            return SessionType::WaylandNested;
        }
        if opt_nonempty(display) {
            return SessionType::X11Nested;
        }
        if opt_is(xdg_session_type, "wayland") {
            return SessionType::DisplayManager;
        }
        if opt_is(xdg_session_type, "x11") {
            return SessionType::X11Nested;
        }
        if opt_is(xdg_session_type, "tty") {
            return SessionType::Tty;
        }
        if real_tty || vtnr_set {
            return SessionType::Tty;
        }
        SessionType::Unknown
    }
}

/// Decide whether the terminal is a real VT from what was read of
/// `/dev/tty`, `/sys/class/tty/tty0/active` and `/proc/self/fd/0`.
pub fn tty_is_real(
    dev_tty_exists: bool,
    active_vt: Option<&str>,
    tty_name: Option<&str>,
    dev_tty_is_char_device: bool,
) -> (b: bool)
    ensures
        b == tty_is_real_spec(dev_tty_exists, active_vt, tty_name, dev_tty_is_char_device),
{
    proof {
        reveal_strlit("tty");
        reveal_strlit("pts/");
        reveal_strlit("ptmx");
    }
    if !dev_tty_exists {
        return false;
    }
    match active_vt {
        Some(a) => {
            let v = chars_of(a);
            let (lo, hi) = trim_bounds(&v, 0, v.len());
            assert(v@.subrange(0, v@.len() as int) =~= v@);
            if hi > lo && lit_starts(&v, lo, hi, "tty") {
                proof {
                    assert(v@.subrange(lo as int, hi as int).take(3) =~= v@.subrange(
                        lo as int,
                        lo + 3,
                    ));
                }
                return true;
            }
            proof {
                if hi - lo >= 3 {
                    assert(v@.subrange(lo as int, hi as int).take(3) =~= v@.subrange(
                        lo as int,
                        lo + 3,
                    ));
                }
            }
        },
        None => {},
    }
    match tty_name {
        Some(n) => {
            let w = chars_of(n);
            let pts = lit_starts(&w, 0, w.len(), "pts/");
            let ptmx = str_eq(n, "ptmx");
            proof {
                if w@.len() >= 4 {
                    assert(w@.subrange(0, 4) == w@.take(4));
                }
                if w@.len() >= 3 {
                    assert(w@.subrange(0, 3) == w@.take(3));
                }
            }
            if pts || ptmx {
                false
            } else {
                lit_starts(&w, 0, w.len(), "tty")
            }
        },
        None => dev_tty_is_char_device,
    }
}

} // verus!
