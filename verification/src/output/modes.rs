//! DRM connectors and their modes: connector kinds, the modes a `modes`
//! file lists, and how a connector is described from what its sysfs
//! directory holds (status, modes, EDID, VRR hints).
use vstd::prelude::*;

use crate::text::{decimal, push_decimal, chars_of, trim, find_char, lemma_find_char_props, find_char_in, trim_bounds, parse_in_range, parse_int_in, range_eq_str, opt_view, seq_lt, str_lt, has_substring, str_contains, lemma_seq_lt_transitive, lemma_seq_lt_asymmetric, lemma_decimal_reads_back, lemma_trim_padded, is_digit};
use crate::output::edid::{EdidInfo, EdidMode, has_edid_header, describes, best_mode_of, max_refresh_of};

verus! {

broadcast use vstd::std_specs::vec::group_vec_axioms;

/// The kind of a DRM connector.
#[derive(Debug, Clone, Copy, PartialEq, Eq, Structural)]
pub enum ConnectorType {
    Unknown,
    EDP,
    DP,
    HDMIA,
    HDMIB,
    LVDS,
    VGA,
    DVID,
    DVII,
    Virtual,
}

/// The display name of a connector kind.
pub open spec fn connector_type_name(t: ConnectorType) -> Seq<char> {
    match t {
        ConnectorType::Unknown => "Unknown"@,
        ConnectorType::EDP => "eDP"@,
        ConnectorType::DP => "DisplayPort"@,
        ConnectorType::HDMIA => "HDMI-A"@,
        ConnectorType::HDMIB => "HDMI-B"@,
        ConnectorType::LVDS => "LVDS"@,
        ConnectorType::VGA => "VGA"@,
        ConnectorType::DVID => "DVI-D"@,
        ConnectorType::DVII => "DVI-I"@,
        ConnectorType::Virtual => "Virtual"@,
    }
}

/// The connector kind a sysfs connector name (such as `card0-HDMI-A-1`)
/// shows: the first of `eDP`, `DP`, `HDMI-A`, `HDMI-B`, `LVDS`, `VGA`,
/// `DVI-D`, `DVI-I`, `Virtual` that occurs in it.
pub open spec fn connector_type_of(name: Seq<char>) -> ConnectorType {
    if has_substring(name, "eDP"@) {
        ConnectorType::EDP
    } else if has_substring(name, "DP"@) {
        ConnectorType::DP
    } else if has_substring(name, "HDMI-A"@) {
        ConnectorType::HDMIA
    } else if has_substring(name, "HDMI-B"@) {
        ConnectorType::HDMIB
    } else if has_substring(name, "LVDS"@) {
        ConnectorType::LVDS
    } else if has_substring(name, "VGA"@) {
        ConnectorType::VGA
    } else if has_substring(name, "DVI-D"@) {
        ConnectorType::DVID
    } else if has_substring(name, "DVI-I"@) {
        ConnectorType::DVII
    } else if has_substring(name, "Virtual"@) {
        ConnectorType::Virtual
    } else {
        ConnectorType::Unknown
    }
}

/// A display mode of a connector.
#[derive(Debug, Clone, Copy, PartialEq, Eq, Structural)]
pub struct DrmMode {
    pub width: u32,
    pub height: u32,
    pub refresh_hz: u32,
    pub is_preferred: bool,
    pub is_current: bool,
    pub clock_khz: u32,
}

/// The refresh rates assumed for a resolution of height `h` listed in a
/// `modes` file, which gives resolutions only.
pub open spec fn assumed_rates(h: u32) -> Seq<u32> {
    if h >= 2160 {
        seq![30u32, 60, 120, 144]
    } else if h >= 1440 {
        seq![60u32, 120, 144, 165, 240]
    } else {
        seq![60u32, 75, 120, 144, 165, 240]
    }
}

/// The resolution a line of a `modes` file gives: `WxH` once trimmed, with
/// exactly one `x` and two positive integers.
pub open spec fn mode_line(line: Seq<char>) -> Option<(u32, u32)> {
    let l = trim(line);
    match find_char(l, 'x') {
        Some(i) => {
            let a = l.take(i);
            let b = l.skip(i + 1);
            if find_char(b, 'x') is Some {
                None
            } else {
                let w = match parse_in_range(a, false, 0, u32::MAX as int) {
                    Some(x) => x,
                    None => 0,
                };
                let h = match parse_in_range(b, false, 0, u32::MAX as int) {
                    Some(x) => x,
                    None => 0,
                };
                if w == 0 || h == 0 {
                    None
                } else {
                    Some((w as u32, h as u32))
                }
            }
        },
        None => None,
    }
}

/// The modes of one resolution, at each assumed rate.
pub open spec fn line_modes(w: u32, h: u32, first: bool) -> Seq<DrmMode> {
    assumed_rates(h).map_values(
        |r: u32|
            DrmMode { width: w, height: h, refresh_hz: r, is_preferred: first, is_current: false, clock_khz: 0 },
    )
}

/// The modes of the lines of `s`, in order; those of the first resolution
/// listed are preferred (`first` says whether it is still to come).
pub open spec fn listed_modes(s: Seq<char>, first: bool) -> Seq<DrmMode>
    decreases s.len(),
{
    match find_char(s, '\n') {
        Some(i) => {
            proof {
                lemma_find_char_props(s, '\n');
            }
            match mode_line(s.take(i)) {
                Some((w, h)) => line_modes(w, h, first) + listed_modes(s.skip(i + 1), false),
                None => listed_modes(s.skip(i + 1), first),
            }
        },
        None => match mode_line(s) {
            Some((w, h)) => line_modes(w, h, first),
            None => Seq::empty(),
        },
    }
}

/// Two modes with the same resolution and refresh rate.
pub open spec fn same_drm_key(a: DrmMode, b: DrmMode) -> bool {
    a.width == b.width && a.height == b.height && a.refresh_hz == b.refresh_hz
}

/// `a` sorts before `b`: a smaller width, then height, then refresh rate.
pub open spec fn drm_before(a: DrmMode, b: DrmMode) -> bool {
    a.width < b.width || (a.width == b.width && (a.height < b.height || (a.height == b.height
        && a.refresh_hz < b.refresh_hz)))
}

/// `m[k]` is the first mode of `m` with its key.
pub open spec fn first_drm_of_key(m: Seq<DrmMode>, k: int) -> bool {
    0 <= k < m.len() && forall|l: int| 0 <= l < k ==> !same_drm_key(#[trigger] m[l], m[k])
}

/// `x` is the first mode of `m` with its key.
pub open spec fn drm_taken_from(m: Seq<DrmMode>, x: DrmMode) -> bool {
    exists|k: int| #[trigger] first_drm_of_key(m, k) && m[k] == x
}

/// `r` is `m` sorted by resolution and refresh rate, smallest first, with
/// one mode for each key: the first of `m` with that key.
pub open spec fn sorted_unique_of(r: Seq<DrmMode>, m: Seq<DrmMode>) -> bool {
    &&& forall|i: int, j: int| 0 <= i < j < r.len() ==> drm_before(r[i], r[j])
    &&& forall|i: int| 0 <= i < r.len() ==> #[trigger] drm_taken_from(m, r[i])
    &&& forall|k: int|
        0 <= k < m.len() ==> exists|i: int| 0 <= i < r.len() && same_drm_key(r[i], #[trigger] m[k])
}

/// The mode assumed where a `modes` file lists none.
pub open spec fn default_drm_mode() -> DrmMode {
    DrmMode { width: 1920, height: 1080, refresh_hz: 60, is_preferred: true, is_current: false, clock_khz: 0 }
}

/// `r` holds the modes of the text of a `modes` file: those listed,
/// sorted and without repeats, or the default mode where none is listed.
pub open spec fn modes_of_text(r: Seq<DrmMode>, s: Seq<char>) -> bool {
    if listed_modes(s, true).len() == 0 {
        r == seq![default_drm_mode()]
    } else {
        sorted_unique_of(r, listed_modes(s, true))
    }
}

proof fn lemma_first_drm_of_key_prefix(m: Seq<DrmMode>, x: DrmMode, k: int)
    requires
        first_drm_of_key(m, k),
    ensures
        first_drm_of_key(m.push(x), k),
        m.push(x)[k] == m[k],
{
    assert forall|l: int| 0 <= l < k implies !same_drm_key(#[trigger] m.push(x)[l], m.push(x)[k]) by {
        assert(m.push(x)[l] == m[l]);
    }
}

/// One step of building the sorted list of distinct modes: `x` has the key
/// of `r[j]` and is dropped.
proof fn lemma_unique_keep(r: Seq<DrmMode>, m: Seq<DrmMode>, x: DrmMode, j: int)
    requires
        sorted_unique_of(r, m),
        0 <= j < r.len(),
        same_drm_key(r[j], x),
    ensures
        sorted_unique_of(r, m.push(x)),
{
    let m2 = m.push(x);
    assert forall|i: int| 0 <= i < r.len() implies #[trigger] drm_taken_from(m2, r[i]) by {
        assert(drm_taken_from(m, r[i]));
        let k = choose|k: int| #[trigger] first_drm_of_key(m, k) && m[k] == r[i];
        lemma_first_drm_of_key_prefix(m, x, k);
    }
    assert forall|k: int| 0 <= k < m2.len() implies exists|i: int|
        0 <= i < r.len() && same_drm_key(r[i], #[trigger] m2[k]) by {
        if k < m.len() {
            assert(m2[k] == m[k]);
            assert(exists|i: int| 0 <= i < r.len() && same_drm_key(r[i], #[trigger] m[k]));
        } else {
            assert(same_drm_key(r[j], m2[k]));
        }
    }
}

/// One step of building the sorted list of distinct modes: `x` has a new
/// key and goes in at `j`.
#[verifier::spinoff_prover]
#[verifier::rlimit(40)]
proof fn lemma_unique_insert(r: Seq<DrmMode>, m: Seq<DrmMode>, x: DrmMode, j: int)
    requires
        sorted_unique_of(r, m),
        0 <= j <= r.len(),
        forall|i: int| 0 <= i < j ==> drm_before(#[trigger] r[i], x),
        j < r.len() ==> drm_before(x, r[j]),
        forall|i: int| 0 <= i < r.len() ==> !same_drm_key(#[trigger] r[i], x),
    ensures
        sorted_unique_of(r.insert(j, x), m.push(x)),
{
    let m2 = m.push(x);
    let r2 = r.insert(j, x);
    assert forall|a: int, b: int| 0 <= a < b < r2.len() implies drm_before(r2[a], r2[b]) by {
        if a < j && b == j {
        } else if a < j && b > j {
            assert(r2[b] == r[b - 1]);
            assert(drm_before(r[a], r[b - 1]));
        } else if a == j {
            assert(r2[b] == r[b - 1]);
            if b - 1 > j {
                assert(drm_before(r[j], r[b - 1]));
            }
        } else if a > j {
            assert(r2[a] == r[a - 1]);
            assert(r2[b] == r[b - 1]);
        }
    }
    assert(first_drm_of_key(m2, m.len() as int)) by {
        assert forall|l: int| 0 <= l < m.len() implies !same_drm_key(#[trigger] m2[l], m2[m.len() as int]) by {
            assert(m2[l] == m[l]);
            assert(exists|i: int| 0 <= i < r.len() && same_drm_key(r[i], #[trigger] m[l]));
            let i = choose|i: int| 0 <= i < r.len() && same_drm_key(r[i], #[trigger] m[l]);
            assert(!same_drm_key(r[i], x));
        }
    }
    assert forall|i: int| 0 <= i < r2.len() implies #[trigger] drm_taken_from(m2, r2[i]) by {
        if i == j {
            assert(m2[m.len() as int] == x);
        } else {
            let i0 = if i < j { i } else { i - 1 };
            assert(r2[i] == r[i0]);
            assert(drm_taken_from(m, r[i0]));
            let k = choose|k: int| #[trigger] first_drm_of_key(m, k) && m[k] == r[i0];
            lemma_first_drm_of_key_prefix(m, x, k);
        }
    }
    assert forall|k: int| 0 <= k < m2.len() implies exists|i: int|
        0 <= i < r2.len() && same_drm_key(r2[i], #[trigger] m2[k]) by {
        if k < m.len() {
            assert(m2[k] == m[k]);
            assert(exists|i: int| 0 <= i < r.len() && same_drm_key(r[i], #[trigger] m[k]));
            let i = choose|i: int| 0 <= i < r.len() && same_drm_key(r[i], #[trigger] m[k]);
            if i < j {
                assert(r2[i] == r[i]);
                assert(same_drm_key(r2[i], m2[k]));
            } else {
                assert(r2[i + 1] == r[i]);
                assert(same_drm_key(r2[i + 1], m2[k]));
            }
        } else {
            assert(r2[j] == x);
            assert(same_drm_key(r2[j], m2[k]));
        }
    }
}

/// Adds `x` to the sorted list of distinct modes `r`, unless a mode with
/// its key is there.
fn add_unique(r: &mut Vec<DrmMode>, x: DrmMode, Ghost(m): Ghost<Seq<DrmMode>>)
    requires
        sorted_unique_of(old(r)@, m),
    ensures
        sorted_unique_of(final(r)@, m.push(x)),
{
    let mut j: usize = 0;
    while j < r.len() && (r[j].width < x.width || (r[j].width == x.width && (r[j].height < x.height
        || (r[j].height == x.height && r[j].refresh_hz < x.refresh_hz))))
        invariant
            j <= r.len(),
            r@ == old(r)@,
            sorted_unique_of(r@, m),
            forall|i: int| 0 <= i < j ==> drm_before(#[trigger] r@[i], x),
        decreases r.len() - j,
    {
        j = j + 1;
    }
    if j < r.len() && r[j].width == x.width && r[j].height == x.height && r[j].refresh_hz == x.refresh_hz {
        proof {
            lemma_unique_keep(r@, m, x, j as int);
        }
    } else {
        proof {
            assert forall|i: int| 0 <= i < r@.len() implies !same_drm_key(#[trigger] r@[i], x) by {
                if i > j {
                    assert(drm_before(r@[j as int], r@[i]));
                }
            }
            lemma_unique_insert(r@, m, x, j as int);
        }
        r.insert(j, x);
    }
}

impl ConnectorType {
    /// The display name of the connector kind.
    pub fn name(&self) -> (s: &'static str)
        ensures
            s@ == connector_type_name(*self),
    {
        match self {
            ConnectorType::Unknown => "Unknown",
            ConnectorType::EDP => "eDP",
            ConnectorType::DP => "DisplayPort",
            ConnectorType::HDMIA => "HDMI-A",
            ConnectorType::HDMIB => "HDMI-B",
            ConnectorType::LVDS => "LVDS",
            ConnectorType::VGA => "VGA",
            ConnectorType::DVID => "DVI-D",
            ConnectorType::DVII => "DVI-I",
            ConnectorType::Virtual => "Virtual",
        }
    }

    /// The connector kind a sysfs connector name shows.
    pub fn from_sysfs_name(name: &str) -> (t: ConnectorType)
        ensures
            t == connector_type_of(name@),
    {
        if str_contains(name, "eDP") {
            ConnectorType::EDP
        } else if str_contains(name, "DP") {
            ConnectorType::DP
        } else if str_contains(name, "HDMI-A") {
            ConnectorType::HDMIA
        } else if str_contains(name, "HDMI-B") {
            ConnectorType::HDMIB
        } else if str_contains(name, "LVDS") {
            ConnectorType::LVDS
        } else if str_contains(name, "VGA") {
            ConnectorType::VGA
        } else if str_contains(name, "DVI-D") {
            ConnectorType::DVID
        } else if str_contains(name, "DVI-I") {
            ConnectorType::DVII
        } else if str_contains(name, "Virtual") {
            ConnectorType::Virtual
        } else {
            ConnectorType::Unknown
        }
    }
}

impl DrmMode {
    /// The mode as `WxH @ RHz`, followed by ` \u{2605}` where it is preferred
    /// and ` (current)` where it is current.
    pub fn display_string(&self) -> (s: String)
        ensures
            s@ == decimal(self.width as nat) + "x"@ + decimal(self.height as nat) + " @ "@ + decimal(
                self.refresh_hz as nat,
            ) + "Hz"@ + (if self.is_preferred {
                " \u{2605}"@
            } else {
                ""@
            }) + (if self.is_current {
                " (current)"@
            } else {
                ""@
            }),
    {
        let mut s = String::new();
        push_decimal(&mut s, self.width);
        s.append("x");
        push_decimal(&mut s, self.height);
        s.append(" @ ");
        push_decimal(&mut s, self.refresh_hz);
        s.append("Hz");
        if self.is_preferred {
            s.append(" \u{2605}");
        } else {
            s.append("");
        }
        if self.is_current {
            s.append(" (current)");
        } else {
            s.append("");
        }
        s
    }
}

/// The resolution the line `v[lo..hi]` of a `modes` file gives.
fn mode_line_at(v: &Vec<char>, lo: usize, hi: usize) -> (r: Option<(u32, u32)>)
    requires
        lo <= hi <= v.len(),
    ensures
        r == mode_line(v@.subrange(lo as int, hi as int)),
{
    let (a, b) = trim_bounds(v, lo, hi);
    let ghost l = v@.subrange(a as int, b as int);
    match find_char_in(v, a, b, 'x') {
        Some(i) => {
            proof {
                lemma_find_char_props(l, 'x');
                assert(l.take(i as int) =~= v@.subrange(a as int, a + i));
                assert(l.skip(i + 1) =~= v@.subrange(a + i + 1, b as int));
            }
            if find_char_in(v, a + i + 1, b, 'x').is_some() {
                return None;
            }
            let w = match parse_int_in(v, a, a + i, false, 0, 0xFFFF_FFFF) {
                Some(x) => x,
                None => 0,
            };
            let h = match parse_int_in(v, a + i + 1, b, false, 0, 0xFFFF_FFFF) {
                Some(x) => x,
                None => 0,
            };
            if w == 0 || h == 0 {
                None
            } else {
                Some((w as u32, h as u32))
            }
        },
        None => None,
    }
}

fn rates_for(h: u32) -> (r: Vec<u32>)
    ensures
        r@ == assumed_rates(h),
{
    let r = if h >= 2160 {
        vec![30u32, 60, 120, 144]
    } else if h >= 1440 {
        vec![60u32, 120, 144, 165, 240]
    } else {
        vec![60u32, 75, 120, 144, 165, 240]
    };
    assert(r@ =~= assumed_rates(h));
    r
}

/// The modes of the text of a `modes` file (one `WxH` resolution a line):
/// each resolution at the rates assumed for it, those of the first one
/// preferred, sorted smallest first without repeats; the default mode
/// 1920x1080 at 60 Hz where none is listed.
pub fn parse_modes(content: &str) -> (r: Vec<DrmMode>)
    ensures
        modes_of_text(r@, content@),
{
    let v = chars_of(content);
    let mut modes: Vec<DrmMode> = Vec::new();
    let ghost mut seen: Seq<DrmMode> = Seq::empty();
    let mut first = true;
    let mut pos: usize = 0;
    let mut done = false;
    assert(v@.subrange(0, v@.len() as int) =~= v@);
    assert(seen + listed_modes(v@, true) =~= listed_modes(v@, true));
    while !done
        invariant
            pos <= v.len(),
            v@ == content@,
            sorted_unique_of(modes@, seen),
            !done ==> listed_modes(v@, true) == seen + listed_modes(v@.subrange(pos as int, v@.len() as int), first),
            done ==> listed_modes(v@, true) == seen,
        decreases (if done { 0 } else { v.len() - pos + 1 }),
    {
        let ghost rest = v@.subrange(pos as int, v@.len() as int);
        let end = match find_char_in(&v, pos, v.len(), '\n') {
            Some(i) => {
                proof {
                    lemma_find_char_props(rest, '\n');
                    assert(rest.take(i as int) =~= v@.subrange(pos as int, pos + i));
                    assert(rest.skip(i + 1) =~= v@.subrange(pos + i + 1, v@.len() as int));
                }
                pos + i
            },
            None => {
                assert(rest =~= v@.subrange(pos as int, v@.len() as int));
                v.len()
            },
        };
        let ghost line = v@.subrange(pos as int, end as int);
        let ghost after = if end < v.len() { listed_modes(v@.subrange(end + 1, v@.len() as int), false) } else { Seq::<DrmMode>::empty() };
        let ghost after_same = if end < v.len() { listed_modes(v@.subrange(end + 1, v@.len() as int), first) } else { Seq::<DrmMode>::empty() };
        match mode_line_at(&v, pos, end) {
            Some((w, h)) => {
                let rates = rates_for(h);
                let ghost lm = line_modes(w, h, first);
                let ghost seen0 = seen;
                let mut j: usize = 0;
                assert(lm.take(0) =~= Seq::<DrmMode>::empty());
                assert(seen0 + Seq::<DrmMode>::empty() =~= seen0);
                while j < rates.len()
                    invariant
                        j <= rates.len(),
                        rates@ == assumed_rates(h),
                        lm == line_modes(w, h, first),
                        seen == seen0 + lm.take(j as int),
                        sorted_unique_of(modes@, seen),
                    decreases rates.len() - j,
                {
                    let m = DrmMode {
                        width: w,
                        height: h,
                        refresh_hz: rates[j],
                        is_preferred: first,
                        is_current: false,
                        clock_khz: 0,
                    };
                    add_unique(&mut modes, m, Ghost(seen));
                    proof {
                        assert(lm[j as int] == m);
                        assert(lm.take(j + 1) =~= lm.take(j as int).push(m));
                        seen = seen.push(m);
                        assert(seen =~= seen0 + lm.take(j + 1));
                    }
                    j = j + 1;
                }
                proof {
                    assert(lm.take(j as int) =~= lm);
                    assert(seen0 + (lm + after) =~= seen + after);
                }
                first = false;
            },
            None => {},
        }
        if end == v.len() {
            proof {
                assert(seen + Seq::<DrmMode>::empty() =~= seen);
            }
            done = true;
        } else {
            pos = end + 1;
        }
    }
    if modes.len() == 0 {
        proof {
            assert(sorted_unique_of(modes@, seen));
            if seen.len() > 0 {
                let x = seen[0];
                assert(exists|i: int| 0 <= i < modes@.len() && same_drm_key(modes@[i], #[trigger] seen[0]));
                assert(false);
            }
        }
        modes.push(DrmMode { width: 1920, height: 1080, refresh_hz: 60, is_preferred: true, is_current: false, clock_khz: 0 });
        assert(modes@ =~= seq![default_drm_mode()]);
    } else {
        assert(drm_taken_from(seen, modes@[0]));
        assert(seen.len() > 0);
    }
    modes
}

/// The VRR hints gathered for a connector: whether the NVIDIA driver runs
/// with mode setting, the connector's `vrr_capable` property where it can
/// be read, whether the AMD driver offers FreeSync video modes, and whether
/// the Intel driver exposes panel self refresh.
#[derive(Debug, Clone)]
pub struct VrrHints {
    pub nvidia_modeset: bool,
    pub vrr_capable: Option<String>,
    pub amd_freesync_video: bool,
    pub i915_psr: bool,
}

/// What a connector's sysfs directory held when it was read: its name
/// (such as `card0-HDMI-A-1`) and path, the text of its `status`,
/// `enabled` and `max_bpc` files (empty where unreadable), its EDID blob
/// and `modes` text where they could be read, and the VRR hints.
#[derive(Debug, Clone)]
pub struct ConnectorProbe {
    pub name: String,
    pub path: String,
    pub status: String,
    pub enabled: String,
    pub edid: Option<Vec<u8>>,
    pub modes: Option<String>,
    pub max_bpc: String,
    pub vrr: VrrHints,
}

/// A connected DRM connector and what is known of its display.
#[derive(Debug, Clone)]
pub struct DrmConnector {
    pub name: String,
    pub path: String,
    pub connected: bool,
    pub enabled: bool,
    pub connector_type: ConnectorType,
    pub supported_modes: Vec<DrmMode>,
    pub preferred_mode: Option<DrmMode>,
    pub edid: Option<EdidInfo>,
    pub vrr_capable: bool,
    pub vrr_range: Option<(u32, u32)>,
    pub gsync: bool,
    pub freesync: bool,
    pub adaptive_sync: bool,
    pub hdr_capable: bool,
    pub max_bpc: u8,
    pub current_bpc: u8,
    pub physical_width_mm: u32,
    pub physical_height_mm: u32,
    pub crtc_id: Option<u32>,
}

/// A sysfs entry name that names a connector (`cardN-...`), not a render
/// node.
pub open spec fn is_connector_entry(name: Seq<char>) -> bool {
    find_char(name, '-') is Some && !(name.len() >= 7 && name.take(7) == "renderD"@)
}

/// Whether the connector supports variable refresh: with the NVIDIA driver
/// in mode-setting mode on DisplayPort or HDMI-A; where its `vrr_capable`
/// property reads `1` or `true`; with AMD FreeSync video; or with the Intel
/// driver on (embedded) DisplayPort.
pub open spec fn vrr_detected(name: Seq<char>, h: VrrHints) -> bool {
    ||| h.nvidia_modeset && (has_substring(name, "DP"@) || (has_substring(name, "HDMI"@)
        && has_substring(name, "A"@)))
    ||| match h.vrr_capable {
        Some(v) => trim(v@) == "1"@ || trim(v@) == "true"@,
        None => false,
    }
    ||| h.amd_freesync_video
    ||| h.i915_psr && (has_substring(name, "eDP"@) || has_substring(name, "DP"@))
}

/// `edid` is what the blob read, if any, parses to.
pub open spec fn edid_of_probe(edid: Option<EdidInfo>, blob: Option<Vec<u8>>) -> bool {
    match blob {
        Some(b) => match edid {
            Some(e) => has_edid_header(b@) && describes(e, b@),
            None => !has_edid_header(b@),
        },
        None => edid is None,
    }
}

/// `base` holds the modes of the `modes` text, or none where it could not
/// be read.
pub open spec fn modes_from_file(base: Seq<DrmMode>, text: Option<Seq<char>>) -> bool {
    match text {
        Some(t) => modes_of_text(base, t),
        None => base.len() == 0,
    }
}

/// A mode an EDID block prefers, as a connector mode.
pub open spec fn preferred_drm(m: EdidMode) -> DrmMode {
    DrmMode {
        width: m.width,
        height: m.height,
        refresh_hz: m.refresh_hz,
        is_preferred: true,
        is_current: false,
        clock_khz: 0,
    }
}

/// The highest refresh rate of the non-empty list `modes`.
pub open spec fn max_drm_rate(modes: Seq<DrmMode>) -> u32
    decreases modes.len(),
{
    if modes.len() <= 1 {
        modes[0].refresh_hz
    } else {
        let rest = max_drm_rate(modes.drop_last());
        if modes.last().refresh_hz > rest {
            modes.last().refresh_hz
        } else {
            rest
        }
    }
}

/// The modes with the key of `pref` marked preferred.
pub open spec fn mark_preferred(base: Seq<DrmMode>, pref: Option<DrmMode>) -> Seq<DrmMode> {
    match pref {
        Some(p) => base.map_values(
            |m: DrmMode| if same_drm_key(m, p) {
                DrmMode { is_preferred: true, ..m }
            } else {
                m
            },
        ),
        None => base,
    }
}

/// The preferred mode of a connector: the best mode of its EDID block,
/// else the last (largest) of its listed modes.
pub open spec fn connector_preferred(edid: Option<EdidInfo>, base: Seq<DrmMode>) -> Option<DrmMode> {
    match edid {
        Some(e) => match best_mode_of(e.preferred_mode, e.modes@) {
            Some(m) => Some(preferred_drm(m)),
            None => None,
        },
        None => if base.len() > 0 {
            Some(base.last())
        } else {
            None
        },
    }
}

/// The highest refresh rate of a connector: that of its EDID block, else
/// that of its listed modes, 60 where there is none.
pub open spec fn connector_max_refresh(edid: Option<EdidInfo>, base: Seq<DrmMode>) -> u32 {
    match edid {
        Some(e) => max_refresh_of(e.modes@, 60),
        None => if base.len() > 0 {
            max_drm_rate(base)
        } else {
            60
        },
    }
}

/// `c` is the connector described by the probe `p`, `base` being the
/// modes its `modes` text lists.
pub open spec fn connector_fields(c: DrmConnector, p: ConnectorProbe, base: Seq<DrmMode>) -> bool {
    let pref = connector_preferred(c.edid, base);
    let max_hz = connector_max_refresh(c.edid, base);
    let vrr = vrr_detected(p.name@, p.vrr);
    let freesync = match c.edid {
        Some(e) => e.vrr_min is Some || e.vrr_max is Some,
        None => false,
    };
    &&& c.name@ == p.name@
    &&& c.path@ == p.path@
    &&& c.connected
    &&& c.enabled == (trim(p.enabled@) == "enabled"@)
    &&& c.connector_type == connector_type_of(p.name@)
    &&& edid_of_probe(c.edid, p.edid)
    &&& modes_from_file(base, opt_view(p.modes))
    &&& c.preferred_mode == pref
    &&& c.supported_modes@ == mark_preferred(base, pref)
    &&& c.vrr_capable == vrr
    &&& c.adaptive_sync == vrr
    &&& c.freesync == freesync
    &&& c.gsync == (has_substring(p.name@, "DP"@) && vrr && !freesync)
    &&& c.hdr_capable == match c.edid {
        Some(e) => e.hdr10_supported || e.hdr_st2084,
        None => false,
    }
    &&& c.max_bpc == match c.edid {
        Some(e) => e.color_depth,
        None => 8u8,
    }
    &&& c.current_bpc == match parse_in_range(trim(p.max_bpc@), false, 0, 255) {
        Some(x) => x as u8,
        None => c.max_bpc,
    }
    &&& c.physical_width_mm == match c.edid {
        Some(e) => (e.physical_width_cm as u32 * 10) as u32,
        None => 0u32,
    }
    &&& c.physical_height_mm == match c.edid {
        Some(e) => (e.physical_height_cm as u32 * 10) as u32,
        None => 0u32,
    }
    &&& c.vrr_range == (if vrr && max_hz > 60 {
        Some((48u32, max_hz))
    } else {
        None
    })
    &&& c.crtc_id is None
}

/// Whether a sysfs entry name names a connector.
pub fn is_connector_name(name: &str) -> (b: bool)
    ensures
        b == is_connector_entry(name@),
{
    let v = chars_of(name);
    let has_dash = find_char_in(&v, 0, v.len(), '-').is_some();
    assert(v@.subrange(0, v@.len() as int) =~= v@);
    let render = v.len() >= 7 && range_eq_str(&v, 0, 7, "renderD");
    proof {
        if v.len() >= 7 {
            assert(v@.take(7) =~= v@.subrange(0, 7));
        }
    }
    has_dash && !render
}

/// `s`, trimmed, equals `lit`.
fn trimmed_is(s: &str, lit: &str) -> (b: bool)
    ensures
        b == (trim(s@) == lit@),
{
    let v = chars_of(s);
    let (a, b) = trim_bounds(&v, 0, v.len());
    assert(v@.subrange(0, v@.len() as int) =~= v@);
    range_eq_str(&v, a, b, lit)
}

/// Whether a connector supports variable refresh (see `vrr_detected`).
pub fn detect_vrr(name: &str, hints: &VrrHints) -> (b: bool)
    ensures
        b == vrr_detected(name@, *hints),
{
    if hints.nvidia_modeset && (str_contains(name, "DP") || (str_contains(name, "HDMI") && str_contains(
        name,
        "A",
    ))) {
        return true;
    }
    let vrr_prop = match &hints.vrr_capable {
        Some(v) => trimmed_is(v.as_str(), "1") || trimmed_is(v.as_str(), "true"),
        None => false,
    };
    if vrr_prop {
        return true;
    }
    if hints.amd_freesync_video {
        return true;
    }
    hints.i915_psr && (str_contains(name, "eDP") || str_contains(name, "DP"))
}

/// The color depth read from a `max_bpc` file, or `default`.
fn read_bpc(text: &str, default: u8) -> (r: u8)
    ensures
        r == match parse_in_range(trim(text@), false, 0, 255) {
            Some(x) => x as u8,
            None => default,
        },
{
    let v = chars_of(text);
    let (a, b) = trim_bounds(&v, 0, v.len());
    assert(v@.subrange(0, v@.len() as int) =~= v@);
    match parse_int_in(&v, a, b, false, 0, 255) {
        Some(x) => x as u8,
        None => default,
    }
}

/// The highest refresh rate of `modes`, or `default` where there is none.
fn max_drm_refresh(modes: &Vec<DrmMode>, default: u32) -> (r: u32)
    ensures
        r == (if modes@.len() > 0 { max_drm_rate(modes@) } else { default }),
{
    if modes.len() == 0 {
        return default;
    }
    let mut best: u32 = modes[0].refresh_hz;
    let mut i: usize = 1;
    assert(modes@.take(1).len() == 1);
    while i < modes.len()
        invariant
            1 <= i <= modes.len(),
            best == max_drm_rate(modes@.take(i as int)),
        decreases modes.len() - i,
    {
        assert(modes@.take(i + 1).drop_last() =~= modes@.take(i as int));
        if modes[i].refresh_hz > best {
            best = modes[i].refresh_hz;
        }
        i = i + 1;
    }
    assert(modes@.take(i as int) =~= modes@);
    best
}

/// Marks preferred every mode with the key of `p`.
fn mark_modes(v: &mut Vec<DrmMode>, p: DrmMode)
    ensures
        final(v)@ == mark_preferred(old(v)@, Some(p)),
{
    let ghost orig = v@;
    let mut i: usize = 0;
    while i < v.len()
        invariant
            i <= v.len(),
            v@.len() == orig.len(),
            forall|k: int| 0 <= k < i ==> v@[k] == mark_preferred(orig, Some(p))[k],
            forall|k: int| i <= k < v@.len() ==> v@[k] == orig[k],
        decreases v.len() - i,
    {
        let m = v[i];
        if m.width == p.width && m.height == p.height && m.refresh_hz == p.refresh_hz {
            v.set(i, DrmMode { is_preferred: true, ..m });
        }
        i = i + 1;
    }
    assert(v@ =~= mark_preferred(orig, Some(p)));
}

/// The connector a probe describes; `None` where its status is not
/// `connected`.
pub fn connector_from_probe(p: ConnectorProbe) -> (r: Option<DrmConnector>)
    ensures
        r is Some <==> trim(p.status@) == "connected"@,
        r matches Some(c) ==> exists|base: Seq<DrmMode>| connector_fields(c, p, base),
{
    if !trimmed_is(p.status.as_str(), "connected") {
        return None;
    }
    let enabled = trimmed_is(p.enabled.as_str(), "enabled");
    let connector_type = ConnectorType::from_sysfs_name(p.name.as_str());
    let edid = match &p.edid {
        Some(b) => EdidInfo::parse(b.as_slice()),
        None => None,
    };
    let mut modes = match &p.modes {
        Some(t) => parse_modes(t.as_str()),
        None => Vec::new(),
    };
    let ghost base = modes@;
    let (preferred_mode, max_refresh) = match &edid {
        Some(e) => {
            let pref = match e.best_mode() {
                Some(m) => Some(
                    DrmMode {
                        width: m.width,
                        height: m.height,
                        refresh_hz: m.refresh_hz,
                        is_preferred: true,
                        is_current: false,
                        clock_khz: 0,
                    },
                ),
                None => None,
            };
            (pref, e.max_refresh())
        },
        None => {
            let pref = if modes.len() > 0 {
                Some(modes[modes.len() - 1])
            } else {
                None
            };
            (pref, max_drm_refresh(&modes, 60))
        },
    };
    let vrr_capable = detect_vrr(p.name.as_str(), &p.vrr);
    let freesync = match &edid {
        Some(e) => e.vrr_min.is_some() || e.vrr_max.is_some(),
        None => false,
    };
    let gsync = str_contains(p.name.as_str(), "DP") && vrr_capable && !freesync;
    let hdr_capable = match &edid {
        Some(e) => e.hdr10_supported || e.hdr_st2084,
        None => false,
    };
    let max_bpc: u8 = match &edid {
        Some(e) => e.color_depth,
        None => 8,
    };
    let current_bpc = read_bpc(p.max_bpc.as_str(), max_bpc);
    let (pw, ph): (u32, u32) = match &edid {
        Some(e) => ((e.physical_width_cm as u32) * 10, (e.physical_height_cm as u32) * 10),
        None => (0, 0),
    };
    match preferred_mode {
        Some(pm) => mark_modes(&mut modes, pm),
        None => {},
    }
    let c = DrmConnector {
        name: p.name,
        path: p.path,
        connected: true,
        enabled,
        connector_type,
        supported_modes: modes,
        preferred_mode,
        edid,
        vrr_capable,
        vrr_range: if vrr_capable && max_refresh > 60 {
            Some((48, max_refresh))
        } else {
            None
        },
        gsync,
        freesync,
        adaptive_sync: vrr_capable,
        hdr_capable,
        max_bpc,
        current_bpc,
        physical_width_mm: pw,
        physical_height_mm: ph,
        crtc_id: None,
    };
    assert(connector_fields(c, p, base));
    Some(c)
}

/// The one mode of the connector assumed where none is found.
pub open spec fn fallback_mode() -> DrmMode {
    DrmMode { width: 1920, height: 1080, refresh_hz: 60, is_preferred: true, is_current: false, clock_khz: 148500 }
}

/// The connector assumed where none is found: `FALLBACK-1`, a virtual
/// display at 1920x1080 and 60 Hz.
pub open spec fn is_fallback(c: DrmConnector) -> bool {
    &&& c.name@ == "FALLBACK-1"@
    &&& c.path@ == Seq::<char>::empty()
    &&& c.connected
    &&& c.enabled
    &&& c.connector_type == ConnectorType::Virtual
    &&& c.supported_modes@ == seq![fallback_mode()]
    &&& c.preferred_mode == Some(fallback_mode())
    &&& c.edid is None
    &&& !c.vrr_capable
    &&& c.vrr_range is None
    &&& !c.gsync
    &&& !c.freesync
    &&& !c.adaptive_sync
    &&& !c.hdr_capable
    &&& c.max_bpc == 8
    &&& c.current_bpc == 8
    &&& c.physical_width_mm == 0
    &&& c.physical_height_mm == 0
    &&& c.crtc_id is None
}

/// The connectors assumed where none is found.
pub fn fallback_connectors() -> (r: Vec<DrmConnector>)
    ensures
        r@.len() == 1,
        is_fallback(r@[0]),
{
    let mode = DrmMode {
        width: 1920,
        height: 1080,
        refresh_hz: 60,
        is_preferred: true,
        is_current: false,
        clock_khz: 148500,
    };
    let c = DrmConnector {
        name: "FALLBACK-1".to_owned(),
        path: String::new(),
        connected: true,
        enabled: true,
        connector_type: ConnectorType::Virtual,
        supported_modes: vec![mode],
        preferred_mode: Some(mode),
        edid: None,
        vrr_capable: false,
        vrr_range: None,
        gsync: false,
        freesync: false,
        adaptive_sync: false,
        hdr_capable: false,
        max_bpc: 8,
        current_bpc: 8,
        physical_width_mm: 0,
        physical_height_mm: 0,
        crtc_id: None,
    };
    assert(c.supported_modes@ =~= seq![fallback_mode()]);
    vec![c]
}

/// An internal panel (embedded DisplayPort or LVDS).
pub open spec fn is_internal(t: ConnectorType) -> bool {
    t == ConnectorType::EDP || t == ConnectorType::LVDS
}

/// `a` goes after `b`: `b` is an internal panel and `a` is not, or both are
/// alike and `a`'s kind has the greater name.
pub open spec fn connector_after(a: DrmConnector, b: DrmConnector) -> bool {
    (is_internal(b.connector_type) && !is_internal(a.connector_type)) || (is_internal(
        a.connector_type,
    ) == is_internal(b.connector_type) && seq_lt(
        connector_type_name(b.connector_type),
        connector_type_name(a.connector_type),
    ))
}

/// `x` inserted into `s` before the first connector it does not go after.
pub open spec fn insert_connector(s: Seq<DrmConnector>, x: DrmConnector) -> Seq<DrmConnector>
    decreases s.len(),
{
    if s.len() == 0 {
        seq![x]
    } else if connector_after(s[0], x) {
        seq![x] + s
    } else {
        seq![s[0]] + insert_connector(s.drop_first(), x)
    }
}

/// `s` with internal panels first, then by the name of the kind, equal
/// connectors keeping their order (a stable sort).
pub open spec fn sort_connectors(s: Seq<DrmConnector>) -> Seq<DrmConnector>
    decreases s.len(),
{
    if s.len() == 0 {
        s
    } else {
        insert_connector(sort_connectors(s.drop_last()), s.last())
    }
}

proof fn lemma_insert_connector_at(s: Seq<DrmConnector>, x: DrmConnector, j: int)
    requires
        0 <= j <= s.len(),
        forall|k: int| 0 <= k < j ==> !connector_after(#[trigger] s[k], x),
        j == s.len() || connector_after(s[j], x),
    ensures
        insert_connector(s, x) == s.insert(j, x),
    decreases j,
{
    if j == 0 {
        if s.len() == 0 {
            assert(s.insert(0, x) =~= seq![x]);
        } else {
            assert(s.insert(0, x) =~= seq![x] + s);
        }
    } else {
        let t = s.drop_first();
        assert forall|k: int| 0 <= k < j - 1 implies !connector_after(#[trigger] t[k], x) by {
            assert(t[k] == s[k + 1]);
        }
        lemma_insert_connector_at(t, x, j - 1);
        assert(s.insert(j, x) =~= seq![s[0]] + t.insert(j - 1, x));
    }
}

fn internal_of(t: ConnectorType) -> (b: bool)
    ensures
        b == is_internal(t),
{
    match t {
        ConnectorType::EDP | ConnectorType::LVDS => true,
        _ => false,
    }
}

fn connector_goes_after(a: &DrmConnector, b: &DrmConnector) -> (r: bool)
    ensures
        r == connector_after(*a, *b),
{
    let ia = internal_of(a.connector_type);
    let ib = internal_of(b.connector_type);
    (ib && !ia) || (ia == ib && str_lt(b.connector_type.name(), a.connector_type.name()))
}

/// `v` with internal panels first, then by the name of the kind.
fn sorted_connectors(v: Vec<DrmConnector>) -> (r: Vec<DrmConnector>)
    ensures
        r@ == sort_connectors(v@),
{
    let ghost all = v@;
    let mut rest = v;
    let mut out: Vec<DrmConnector> = Vec::new();
    let ghost mut k: int = 0;
    assert(all.take(0) =~= Seq::<DrmConnector>::empty());
    while rest.len() > 0
        invariant
            0 <= k <= all.len(),
            rest@.len() + k == all.len(),
            rest@ == all.skip(k),
            out@ == sort_connectors(all.take(k)),
        decreases rest.len(),
    {
        let ghost before = out@;
        let x = rest.remove(0);
        proof {
            assert(x == all[k]);
            assert(rest@ =~= all.skip(k + 1));
        }
        let mut j: usize = 0;
        while j < out.len() && !connector_goes_after(&out[j], &x)
            invariant
                j <= out.len(),
                before == out@,
                forall|m: int| 0 <= m < j ==> !connector_after(#[trigger] before[m], x),
            decreases out.len() - j,
        {
            j = j + 1;
        }
        proof {
            lemma_insert_connector_at(before, x, j as int);
            assert(all.take(k + 1).drop_last() =~= all.take(k));
        }
        out.insert(j, x);
        proof {
            k = k + 1;
        }
    }
    assert(all.take(k) =~= all);
    out
}

/// `cs` are the connectors the probes `ps` describe, in order: one for each
/// probe of a connector entry whose status is `connected`.
pub open spec fn collected_from(cs: Seq<DrmConnector>, ps: Seq<ConnectorProbe>) -> bool
    decreases ps.len(),
{
    if ps.len() == 0 {
        cs.len() == 0
    } else if is_connector_entry(ps[0].name@) && trim(ps[0].status@) == "connected"@ {
        cs.len() > 0 && (exists|base: Seq<DrmMode>| connector_fields(cs[0], ps[0], base))
            && collected_from(cs.drop_first(), ps.drop_first())
    } else {
        collected_from(cs, ps.drop_first())
    }
}

/// The connectors the sysfs entries `probes` (in the order listed)
/// describe, internal panels first, then by kind; the fallback connector
/// where none is connected.
pub fn probe_all_connectors(probes: Vec<ConnectorProbe>) -> (r: Vec<DrmConnector>)
    ensures
        exists|cs: Seq<DrmConnector>|
            #[trigger] collected_from(cs, probes@) && if cs.len() == 0 {
                r@.len() == 1 && is_fallback(r@[0])
            } else {
                r@ == sort_connectors(cs)
            },
{
    let ghost all = probes@;
    let mut rest = probes;
    let mut found: Vec<DrmConnector> = Vec::new();
    let ghost mut k: int = 0;
    assert(all.skip(0) =~= all);
    while rest.len() > 0
        invariant
            0 <= k <= all.len(),
            rest@.len() + k == all.len(),
            rest@ == all.skip(k),
            forall|tail: Seq<DrmConnector>|
                collected_from(tail, all.skip(k)) ==> #[trigger] collected_from(found@ + tail, all),
        decreases rest.len(),
    {
        let p = rest.remove(0);
        let ghost pg = p;
        let ghost before = found@;
        proof {
            assert(pg == all[k]);
            assert(rest@ =~= all.skip(k + 1));
            assert(all.skip(k).drop_first() =~= all.skip(k + 1));
            assert(all.skip(k)[0] == pg);
        }
        if is_connector_name(p.name.as_str()) {
            match connector_from_probe(p) {
                Some(c) => {
                    found.push(c);
                    proof {
                        assert forall|tail: Seq<DrmConnector>|
                            collected_from(tail, all.skip(k + 1)) implies #[trigger] collected_from(
                            found@ + tail,
                            all,
                        ) by {
                            let t2 = seq![c] + tail;
                            assert(t2.drop_first() =~= tail);
                            assert(t2[0] == c);
                            assert(collected_from(t2, all.skip(k)));
                            assert(before + t2 =~= found@ + tail);
                        }
                    }
                },
                None => {},
            }
        }
        proof {
            k = k + 1;
        }
    }
    proof {
        assert(all.skip(k).len() == 0);
        assert(collected_from(Seq::<DrmConnector>::empty(), all.skip(k)));
        assert(found@ + Seq::<DrmConnector>::empty() =~= found@);
        assert(collected_from(found@, all));
    }
    let ghost cs = found@;
    let r = if found.len() == 0 {
        fallback_connectors()
    } else {
        sorted_connectors(found)
    };
    assert(collected_from(cs, probes@) && if cs.len() == 0 {
        r@.len() == 1 && is_fallback(r@[0])
    } else {
        r@ == sort_connectors(cs)
    });
    r
}

/// No connector goes after a later one: internal panels first, then kinds
/// by name.
pub open spec fn connectors_ordered(s: Seq<DrmConnector>) -> bool {
    forall|i: int, j: int| 0 <= i < j < s.len() ==> !connector_after(#[trigger] s[i], #[trigger] s[j])
}

proof fn lemma_connector_after_order(a: DrmConnector, b: DrmConnector, c: DrmConnector)
    ensures
        connector_after(a, b) && connector_after(b, c) ==> connector_after(a, c),
        !(connector_after(a, b) && connector_after(b, a)),
{
    lemma_seq_lt_asymmetric(connector_type_name(a.connector_type), connector_type_name(b.connector_type));
    if connector_after(a, b) && connector_after(b, c) {
        if is_internal(a.connector_type) == is_internal(b.connector_type) && is_internal(b.connector_type)
            == is_internal(c.connector_type) {
            lemma_seq_lt_transitive(
                connector_type_name(c.connector_type),
                connector_type_name(b.connector_type),
                connector_type_name(a.connector_type),
            );
        }
    }
}

proof fn lemma_insert_connector_sorted(s: Seq<DrmConnector>, x: DrmConnector)
    requires
        connectors_ordered(s),
    ensures
        connectors_ordered(insert_connector(s, x)),
        insert_connector(s, x).to_multiset() == s.to_multiset().insert(x),
    decreases s.len(),
{
    broadcast use vstd::seq_lib::group_to_multiset_ensures, vstd::multiset::group_multiset_axioms;
    let r = insert_connector(s, x);
    if s.len() == 0 {
        assert(r =~= seq![x]);
        assert(seq![x] =~= Seq::<DrmConnector>::empty().push(x));
    } else if connector_after(s[0], x) {
        assert(r == seq![x] + s);
        vstd::seq_lib::lemma_multiset_commutative(seq![x], s);
        assert(seq![x] =~= Seq::<DrmConnector>::empty().push(x));
        assert forall|i: int, j: int| 0 <= i < j < r.len() implies !connector_after(#[trigger] r[i], #[trigger] r[j]) by {
            if i == 0 {
                lemma_connector_after_order(s[0], x, r[j]);
                if j - 1 > 0 {
                    assert(!connector_after(s[0], s[j - 1]));
                }
            } else {
                assert(r[i] == s[i - 1] && r[j] == s[j - 1]);
            }
        }
    } else {
        let t = s.drop_first();
        assert(connectors_ordered(t)) by {
            assert forall|i: int, j: int| 0 <= i < j < t.len() implies !connector_after(#[trigger] t[i], #[trigger] t[j]) by {
                assert(t[i] == s[i + 1] && t[j] == s[j + 1]);
            }
        }
        lemma_insert_connector_sorted(t, x);
        let u = insert_connector(t, x);
        assert(r == seq![s[0]] + u);
        vstd::seq_lib::lemma_multiset_commutative(seq![s[0]], u);
        vstd::seq_lib::lemma_multiset_commutative(seq![s[0]], t);
        assert(s =~= seq![s[0]] + t);
        assert forall|i: int, j: int| 0 <= i < j < r.len() implies !connector_after(#[trigger] r[i], #[trigger] r[j]) by {
            if i == 0 {
                let y = u[j - 1];
                assert(u.to_multiset().count(y) > 0);
                if y != x {
                    assert(t.to_multiset().count(y) > 0);
                    assert(t.contains(y));
                    let m = choose|m: int| 0 <= m < t.len() && t[m] == y;
                    assert(s[m + 1] == y);
                }
            } else {
                assert(r[i] == u[i - 1] && r[j] == u[j - 1]);
            }
        }
    }
}

/// Probing orders the connectors: internal panels first, then kinds by
/// name, and the order holds every connector found, each once.
pub proof fn lemma_sort_connectors_ordered(s: Seq<DrmConnector>)
    ensures
        connectors_ordered(sort_connectors(s)),
        sort_connectors(s).to_multiset() == s.to_multiset(),
    decreases s.len(),
{
    broadcast use vstd::seq_lib::group_to_multiset_ensures, vstd::multiset::group_multiset_axioms;
    if s.len() > 0 {
        lemma_sort_connectors_ordered(s.drop_last());
        lemma_insert_connector_sorted(sort_connectors(s.drop_last()), s.last());
        assert(s =~= s.drop_last().push(s.last()));
    }
}


/// A sysfs connector name with `eDP` in it is an embedded panel, an
/// internal one, whatever else it holds. Every other kind is found only
/// where its tag occurs in the name and no tag checked before it does:
/// DisplayPort needs `DP` without `eDP`, HDMI-A needs `HDMI-A` without
/// `DP`, and so on; a name with none of the tags is of unknown kind.
pub proof fn lemma_connector_kind_from_name(name: Seq<char>)
    ensures
        has_substring(name, "eDP"@) ==> connector_type_of(name) == ConnectorType::EDP,
        has_substring(name, "eDP"@) ==> is_internal(connector_type_of(name)),
        connector_type_of(name) == ConnectorType::EDP ==> has_substring(name, "eDP"@),
        connector_type_of(name) == ConnectorType::DP ==> has_substring(name, "DP"@)
            && !has_substring(name, "eDP"@),
        connector_type_of(name) == ConnectorType::HDMIA ==> has_substring(name, "HDMI-A"@)
            && !has_substring(name, "DP"@),
        connector_type_of(name) == ConnectorType::HDMIB ==> has_substring(name, "HDMI-B"@)
            && !has_substring(name, "DP"@) && !has_substring(name, "HDMI-A"@),
        connector_type_of(name) == ConnectorType::LVDS ==> has_substring(name, "LVDS"@)
            && !has_substring(name, "DP"@) && !has_substring(name, "HDMI-A"@) && !has_substring(name, "HDMI-B"@),
        connector_type_of(name) == ConnectorType::LVDS ==> is_internal(connector_type_of(name)),
        connector_type_of(name) == ConnectorType::VGA ==> has_substring(name, "VGA"@)
            && !has_substring(name, "DP"@) && !has_substring(name, "LVDS"@),
        connector_type_of(name) == ConnectorType::DVID ==> has_substring(name, "DVI-D"@)
            && !has_substring(name, "DP"@) && !has_substring(name, "VGA"@),
        connector_type_of(name) == ConnectorType::DVII ==> has_substring(name, "DVI-I"@)
            && !has_substring(name, "DP"@) && !has_substring(name, "DVI-D"@),
        connector_type_of(name) == ConnectorType::Virtual ==> has_substring(name, "Virtual"@)
            && !has_substring(name, "DP"@) && !has_substring(name, "DVI-I"@),
        connector_type_of(name) == ConnectorType::Unknown ==> !has_substring(name, "DP"@)
            && !has_substring(name, "HDMI-A"@) && !has_substring(name, "HDMI-B"@) && !has_substring(name, "LVDS"@)
            && !has_substring(name, "VGA"@) && !has_substring(name, "DVI-D"@) && !has_substring(name, "DVI-I"@)
            && !has_substring(name, "Virtual"@),
{
}


/// A `modes` file line that writes a resolution as `WxH` in decimal
/// gives that resolution back, for any positive width and height.
pub proof fn lemma_mode_line_reads(w: u32, h: u32)
    requires
        w > 0,
        h > 0,
    ensures
        mode_line(decimal(w as nat) + seq!['x'] + decimal(h as nat)) == Some((w, h)),
{
    let a = decimal(w as nat);
    let b = decimal(h as nat);
    lemma_decimal_reads_back(w as nat);
    lemma_decimal_reads_back(h as nat);
    let line = a + seq!['x'] + b;
    assert(line[0] == a[0]);
    assert(line.last() == b.last());
    assert(is_digit(a[0]) && is_digit(b.last()));
    assert(Seq::<char>::empty() + line + Seq::<char>::empty() =~= line);
    lemma_trim_padded(Seq::empty(), line, Seq::empty());
    assert(trim(line) == line);
    lemma_find_char_props(line, 'x');
    assert(line[a.len() as int] == 'x');
    assert forall|j: int| 0 <= j < a.len() implies line[j] != 'x' by {
        assert(line[j] == a[j]);
        assert(is_digit(a[j]));
    }
    assert(find_char(line, 'x') == Some(a.len() as int));
    assert(line.take(a.len() as int) =~= a);
    assert(line.skip(a.len() as int + 1) =~= b);
    lemma_find_char_props(b, 'x');
    assert forall|j: int| 0 <= j < b.len() implies b[j] != 'x' by {
        assert(is_digit(b[j]));
    }
    assert(!is_digit('+'));
    assert(!is_digit(a[0]) == false);
}

} // verus!
