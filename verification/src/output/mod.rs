//! Displays: EDID blocks, DRM connectors and their modes, and outputs.
pub mod edid;
pub mod modes;

use vstd::prelude::*;
use crate::geometry::Rect;
use crate::types::OutputTransform;
use crate::output::modes::{DrmConnector, DrmMode, ConnectorType, connector_type_name};

verus! {

broadcast use vstd::std_specs::vec::group_vec_axioms;

/// A pixel format of an output's framebuffers.
#[derive(Debug, Clone, Copy, PartialEq, Eq, Structural)]
pub enum PixelFormat {
    Bgra8888,
    Rgba8888,
    Xrgb8888,
    Xbgr8888,
    Rgb565,
    Bgra1010102,
    Rgba1010102,
}

/// A display output. `scale_percent` is the output scale in percent (100
/// is unscaled). `id_bit` is the output's bit in masks of outputs.
#[derive(Debug, Clone)]
pub struct Output {
    pub id_bit: u64,
    pub name: String,
    pub make: String,
    pub model: String,
    pub serial: String,
    pub x: i32,
    pub y: i32,
    pub width: i32,
    pub height: i32,
    pub physical_width_mm: i32,
    pub physical_height_mm: i32,
    pub refresh_rate: u32,
    pub max_refresh_rate: u32,
    pub min_refresh_rate: u32,
    pub current_refresh_rate: u32,
    pub preferred_mode: Option<DrmMode>,
    pub gsync_compatible: bool,
    pub freesync_compatible: bool,
    pub adaptive_sync_enabled: bool,
    pub hdr_enabled: bool,
    pub hdr10_supported: bool,
    pub color_depth: u8,
    pub pixel_format: PixelFormat,
    pub scale_percent: u32,
    pub transform: OutputTransform,
    pub connector_type: ConnectorType,
    pub usable_area: Rect,
    pub enabled: bool,
    pub leased: bool,
    pub has_fullscreen_view: bool,
}

impl Output {
    /// `self` is an enabled virtual output named `name` of the given size
    /// and refresh rate, at the origin, unscaled, with bit 1 and nothing
    /// else known.
    pub open spec fn is_fresh(self, name: Seq<char>, width: int, height: int, refresh: int) -> bool {
        &&& self.id_bit == 1
        &&& self.name@ == name
        &&& self.make@.len() == 0 && self.model@.len() == 0 && self.serial@.len() == 0
        &&& self.x == 0 && self.y == 0 && self.width == width && self.height == height
        &&& self.physical_width_mm == 0 && self.physical_height_mm == 0
        &&& self.refresh_rate == refresh && self.max_refresh_rate == refresh
        &&& self.min_refresh_rate == refresh && self.current_refresh_rate == refresh
        &&& self.preferred_mode is None
        &&& !self.gsync_compatible && !self.freesync_compatible && !self.adaptive_sync_enabled
        &&& !self.hdr_enabled && !self.hdr10_supported
        &&& self.color_depth == 8
        &&& self.pixel_format == PixelFormat::Bgra8888
        &&& self.scale_percent == 100
        &&& self.transform == OutputTransform::Normal
        &&& self.connector_type == ConnectorType::Virtual
        &&& self.usable_area == (Rect { x: 0, y: 0, width: width as i32, height: height as i32 })
        &&& self.enabled && !self.leased && !self.has_fullscreen_view
    }

    /// An enabled virtual output of the given size and refresh rate, at the
    /// origin, unscaled, with nothing else known.
    pub fn new(name: &str, width: i32, height: i32, refresh: u32) -> (o: Output)
        ensures
            o.is_fresh(name@, width as int, height as int, refresh as int),
    {
        Output {
            id_bit: 1,
            name: name.to_owned(),
            make: String::new(),
            model: String::new(),
            serial: String::new(),
            x: 0,
            y: 0,
            width,
            height,
            physical_width_mm: 0,
            physical_height_mm: 0,
            refresh_rate: refresh,
            max_refresh_rate: refresh,
            min_refresh_rate: refresh,
            current_refresh_rate: refresh,
            preferred_mode: None,
            gsync_compatible: false,
            freesync_compatible: false,
            adaptive_sync_enabled: false,
            hdr_enabled: false,
            hdr10_supported: false,
            color_depth: 8,
            pixel_format: PixelFormat::Bgra8888,
            scale_percent: 100,
            transform: OutputTransform::Normal,
            connector_type: ConnectorType::Virtual,
            usable_area: Rect::new(0, 0, width, height),
            enabled: true,
            leased: false,
            has_fullscreen_view: false,
        }
    }

    /// An output can show views when it is enabled and not leased.
    pub fn is_usable(&self) -> (b: bool)
        ensures
            b == (self.enabled && !self.leased),
    {
        self.enabled && !self.leased
    }

    /// The area of the output left to views.
    pub fn usable_area(&self) -> (r: Rect)
        ensures
            r == self.usable_area,
    {
        self.usable_area
    }

    /// Sets the area of the output left to views.
    pub fn set_usable_area(&mut self, x: i32, y: i32, w: i32, h: i32)
        ensures
            *final(self) == (Output { usable_area: Rect { x, y, width: w, height: h }, ..*old(self) }),
    {
        self.usable_area = Rect::new(x, y, w, h);
    }

    /// Records whether a fullscreen view covers the output.
    pub fn set_has_fullscreen_view(&mut self, has: bool)
        ensures
            *final(self) == (Output { has_fullscreen_view: has, ..*old(self) }),
    {
        self.has_fullscreen_view = has;
    }

    /// Whether a fullscreen view covers the output.
    pub fn has_fullscreen_view(&self) -> (b: bool)
        ensures
            b == self.has_fullscreen_view,
    {
        self.has_fullscreen_view
    }

    /// The output's place in the layout: `(x, y, width, height)`.
    pub fn layout_geometry(&self) -> (r: (i32, i32, i32, i32))
        ensures
            r == (self.x, self.y, self.width, self.height),
    {
        (self.x, self.y, self.width, self.height)
    }

    /// Sets the current refresh rate to `hz`, kept within the output's
    /// range.
    pub fn set_refresh_rate(&mut self, hz: u32)
        requires
            old(self).min_refresh_rate <= old(self).max_refresh_rate,
        ensures
            *final(self) == (Output {
                current_refresh_rate: if hz < old(self).min_refresh_rate {
                    old(self).min_refresh_rate
                } else if hz > old(self).max_refresh_rate {
                    old(self).max_refresh_rate
                } else {
                    hz
                },
                ..*old(self)
            }),
    {
        self.current_refresh_rate = if hz < self.min_refresh_rate {
            self.min_refresh_rate
        } else if hz > self.max_refresh_rate {
            self.max_refresh_rate
        } else {
            hz
        };
    }

    /// Enables adaptive sync where the display supports G-Sync or FreeSync;
    /// otherwise leaves it as it is.
    pub fn detect_adaptive_sync(&mut self)
        ensures
            *final(self) == (Output {
                adaptive_sync_enabled: old(self).adaptive_sync_enabled || old(self).gsync_compatible
                    || old(self).freesync_compatible,
                ..*old(self)
            }),
    {
        if self.gsync_compatible || self.freesync_compatible {
            self.adaptive_sync_enabled = true;
        }
    }

    /// Whether the output can show HDR: HDR10 support at 10 bits or more.
    pub fn supports_hdr(&self) -> (b: bool)
        ensures
            b == (self.hdr10_supported && self.color_depth >= 10),
    {
        self.hdr10_supported && self.color_depth >= 10
    }
}

/// A mode of the resolution `w` x `h` (its sizes compared after
/// conversion to `i32`, the type of an output's size).
pub open spec fn at_resolution(m: DrmMode, w: i32, h: i32) -> bool {
    m.width as i32 == w && m.height as i32 == h
}

/// The refresh rates of the modes at resolution `w` x `h`, in order.
pub open spec fn rates_at(s: Seq<DrmMode>, w: i32, h: i32) -> Seq<u32>
    decreases s.len(),
{
    if s.len() == 0 {
        Seq::empty()
    } else if at_resolution(s.last(), w, h) {
        rates_at(s.drop_last(), w, h).push(s.last().refresh_hz)
    } else {
        rates_at(s.drop_last(), w, h)
    }
}

/// The refresh rates of all the modes, in order.
pub open spec fn all_rates(s: Seq<DrmMode>) -> Seq<u32> {
    s.map_values(|m: DrmMode| m.refresh_hz)
}

/// The largest of the non-empty `s`.
pub open spec fn max_of(s: Seq<u32>) -> u32
    decreases s.len(),
{
    if s.len() <= 1 {
        s[0]
    } else if s.last() >= max_of(s.drop_last()) {
        s.last()
    } else {
        max_of(s.drop_last())
    }
}

/// The smallest of the non-empty `s`.
pub open spec fn min_of(s: Seq<u32>) -> u32
    decreases s.len(),
{
    if s.len() <= 1 {
        s[0]
    } else if s.last() <= min_of(s.drop_last()) {
        s.last()
    } else {
        min_of(s.drop_last())
    }
}

/// The largest of `s`, or `d` where `s` is empty.
pub open spec fn max_or(s: Seq<u32>, d: u32) -> u32 {
    if s.len() == 0 {
        d
    } else {
        max_of(s)
    }
}

/// The smallest of `s`, or `d` where `s` is empty.
pub open spec fn min_or(s: Seq<u32>, d: u32) -> u32 {
    if s.len() == 0 {
        d
    } else {
        min_of(s)
    }
}

/// The mode at resolution `w` x `h` with the highest refresh rate, the last
/// of them where several share it.
pub open spec fn fastest_at(s: Seq<DrmMode>, w: i32, h: i32) -> Option<DrmMode>
    decreases s.len(),
{
    if s.len() == 0 {
        None
    } else {
        let b = fastest_at(s.drop_last(), w, h);
        let m = s.last();
        if at_resolution(m, w, h) && (b is None || m.refresh_hz >= b.unwrap().refresh_hz) {
            Some(m)
        } else {
            b
        }
    }
}

/// The bit of the `k`-th output: one, shifted left once per output before
/// it.
pub open spec fn id_bit_at(k: nat) -> u64
    decreases k,
{
    if k == 0 {
        1
    } else {
        id_bit_at((k - 1) as nat) << 1u64
    }
}

/// `o` is the output of the connector `c`, the `k`-th of them: the
/// connector's preferred mode (1920x1080 where it has none), its refresh
/// rates, what its EDID block names, and its capabilities.
pub open spec fn output_of(o: Output, c: DrmConnector, k: nat) -> bool {
    let modes = c.supported_modes@;
    let width = match c.preferred_mode {
        Some(m) => m.width as i32,
        None => 1920i32,
    };
    let height = match c.preferred_mode {
        Some(m) => m.height as i32,
        None => 1080i32,
    };
    let refresh = match c.preferred_mode {
        Some(m) => m.refresh_hz,
        None => max_or(rates_at(modes, width, height), 60),
    };
    &&& o.id_bit == id_bit_at(k)
    &&& o.name@ == c.name@
    &&& o.make@ == match c.edid {
        Some(e) => e.manufacturer@,
        None => "Unknown"@,
    }
    &&& o.model@ == match c.edid {
        Some(e) => e.model@,
        None => connector_type_name(c.connector_type),
    }
    &&& o.serial@ == match c.edid {
        Some(e) => e.serial@,
        None => Seq::<char>::empty(),
    }
    &&& o.x == 0 && o.y == 0
    &&& o.width == width && o.height == height
    &&& o.physical_width_mm == c.physical_width_mm as i32
    &&& o.physical_height_mm == c.physical_height_mm as i32
    &&& o.refresh_rate == refresh
    &&& o.current_refresh_rate == refresh
    &&& o.max_refresh_rate == max_or(rates_at(modes, width, height), refresh)
    &&& o.min_refresh_rate == min_or(all_rates(modes), if c.adaptive_sync { 48u32 } else { refresh })
    &&& o.preferred_mode == match c.preferred_mode {
        Some(m) => Some(m),
        None => fastest_at(modes, width, height),
    }
    &&& o.gsync_compatible == c.gsync
    &&& o.freesync_compatible == c.freesync
    &&& o.adaptive_sync_enabled == c.adaptive_sync
    &&& !o.hdr_enabled
    &&& o.hdr10_supported == c.hdr_capable
    &&& o.color_depth == (if c.hdr_capable { 10u8 } else { 8u8 })
    &&& o.pixel_format == (if c.hdr_capable { PixelFormat::Bgra1010102 } else { PixelFormat::Bgra8888 })
    &&& o.scale_percent == 100
    &&& o.transform == OutputTransform::Normal
    &&& o.connector_type == c.connector_type
    &&& o.usable_area == (Rect { x: 0, y: 0, width, height })
    &&& o.enabled == c.enabled
    &&& !o.leased
    &&& !o.has_fullscreen_view
}

/// The highest refresh rate of the modes at resolution `w` x `h`, or `d`.
fn max_rate_at(s: &Vec<DrmMode>, w: i32, h: i32, d: u32) -> (r: u32)
    ensures
        r == max_or(rates_at(s@, w, h), d),
{
    let mut acc: Option<u32> = None;
    let mut i: usize = 0;
    while i < s.len()
        invariant
            i <= s.len(),
            match acc {
                Some(a) => rates_at(s@.take(i as int), w, h).len() > 0 && a == max_of(
                    rates_at(s@.take(i as int), w, h),
                ),
                None => rates_at(s@.take(i as int), w, h).len() == 0,
            },
        decreases s.len() - i,
    {
        assert(s@.take(i + 1).drop_last() =~= s@.take(i as int));
        let ghost prev = rates_at(s@.take(i as int), w, h);
        let m = s[i];
        if m.width as i32 == w && m.height as i32 == h {
            assert(rates_at(s@.take(i + 1), w, h) == prev.push(m.refresh_hz));
            assert(prev.push(m.refresh_hz).drop_last() =~= prev);
            acc = match acc {
                Some(a) => if m.refresh_hz >= a {
                    Some(m.refresh_hz)
                } else {
                    Some(a)
                },
                None => Some(m.refresh_hz),
            };
        }
        i = i + 1;
    }
    assert(s@.take(i as int) =~= s@);
    match acc {
        Some(a) => a,
        None => d,
    }
}

/// The lowest refresh rate of the modes, or `d`.
fn min_rate(s: &Vec<DrmMode>, d: u32) -> (r: u32)
    ensures
        r == min_or(all_rates(s@), d),
{
    if s.len() == 0 {
        return d;
    }
    let mut acc: u32 = s[0].refresh_hz;
    let mut i: usize = 1;
    assert(all_rates(s@.take(1)).len() == 1);
    while i < s.len()
        invariant
            1 <= i <= s.len(),
            acc == min_of(all_rates(s@.take(i as int))),
        decreases s.len() - i,
    {
        assert(all_rates(s@.take(i + 1)).drop_last() =~= all_rates(s@.take(i as int)));
        if s[i].refresh_hz <= acc {
            acc = s[i].refresh_hz;
        }
        i = i + 1;
    }
    assert(s@.take(i as int) =~= s@);
    acc
}

/// The mode at resolution `w` x `h` with the highest refresh rate, the last
/// of them where several share it.
fn fastest_mode_at(s: &Vec<DrmMode>, w: i32, h: i32) -> (r: Option<DrmMode>)
    ensures
        r == fastest_at(s@, w, h),
{
    let mut acc: Option<DrmMode> = None;
    let mut i: usize = 0;
    while i < s.len()
        invariant
            i <= s.len(),
            acc == fastest_at(s@.take(i as int), w, h),
        decreases s.len() - i,
    {
        assert(s@.take(i + 1).drop_last() =~= s@.take(i as int));
        let m = s[i];
        if m.width as i32 == w && m.height as i32 == h {
            let better = match acc {
                Some(b) => m.refresh_hz >= b.refresh_hz,
                None => true,
            };
            if better {
                acc = Some(m);
            }
        }
        i = i + 1;
    }
    assert(s@.take(i as int) =~= s@);
    acc
}

/// The output of the connector `c`, the `k`-th of them, with bit `id`.
fn output_for(c: &DrmConnector, id: u64, Ghost(k): Ghost<nat>) -> (o: Output)
    requires
        id == id_bit_at(k),
    ensures
        output_of(o, *c, k),
{
    let (width, height, refresh) = match c.preferred_mode {
        Some(m) => (m.width as i32, m.height as i32, m.refresh_hz),
        None => (1920i32, 1080i32, max_rate_at(&c.supported_modes, 1920, 1080, 60)),
    };
    let max_refresh = max_rate_at(&c.supported_modes, width, height, refresh);
    let min_refresh = min_rate(&c.supported_modes, if c.adaptive_sync { 48 } else { refresh });
    let best_mode = match c.preferred_mode {
        Some(m) => Some(m),
        None => fastest_mode_at(&c.supported_modes, width, height),
    };
    let make = match &c.edid {
        Some(e) => e.manufacturer.clone(),
        None => "Unknown".to_owned(),
    };
    let model = match &c.edid {
        Some(e) => e.model.clone(),
        None => c.connector_type.name().to_owned(),
    };
    let serial = match &c.edid {
        Some(e) => e.serial.clone(),
        None => String::new(),
    };
    Output {
        id_bit: id,
        name: c.name.clone(),
        make,
        model,
        serial,
        x: 0,
        y: 0,
        width,
        height,
        physical_width_mm: c.physical_width_mm as i32,
        physical_height_mm: c.physical_height_mm as i32,
        refresh_rate: refresh,
        max_refresh_rate: max_refresh,
        min_refresh_rate: min_refresh,
        current_refresh_rate: refresh,
        preferred_mode: best_mode,
        gsync_compatible: c.gsync,
        freesync_compatible: c.freesync,
        adaptive_sync_enabled: c.adaptive_sync,
        hdr_enabled: false,
        hdr10_supported: c.hdr_capable,
        color_depth: if c.hdr_capable {
            10
        } else {
            8
        },
        pixel_format: if c.hdr_capable {
            PixelFormat::Bgra1010102
        } else {
            PixelFormat::Bgra8888
        },
        scale_percent: 100,
        transform: OutputTransform::Normal,
        connector_type: c.connector_type,
        usable_area: Rect::new(0, 0, width, height),
        enabled: c.enabled,
        leased: false,
        has_fullscreen_view: false,
    }
}

/// The outputs of the connectors, one each in order, the `k`-th with bit
/// `1 << k` (see `output_of`); a single `FALLBACK-1` output of 1920x1080 at
/// 60 Hz where there is no connector.
pub fn outputs_from_connectors(conns: &Vec<DrmConnector>) -> (r: Vec<Output>)
    ensures
        conns@.len() == 0 ==> r@.len() == 1 && r@[0].is_fresh("FALLBACK-1"@, 1920, 1080, 60),
        conns@.len() > 0 ==> r@.len() == conns@.len() && forall|k: int|
            0 <= k < conns@.len() ==> output_of(#[trigger] r@[k], conns@[k], k as nat),
{
    if conns.len() == 0 {
        let mut out = Output::new("FALLBACK-1", 1920, 1080, 60);
        out.id_bit = 1;
        return vec![out];
    }
    let mut outs: Vec<Output> = Vec::new();
    let mut id: u64 = 1;
    let mut i: usize = 0;
    while i < conns.len()
        invariant
            i <= conns.len(),
            outs@.len() == i,
            id == id_bit_at(i as nat),
            forall|k: int| 0 <= k < i ==> output_of(#[trigger] outs@[k], conns@[k], k as nat),
        decreases conns.len() - i,
    {
        let o = output_for(&conns[i], id, Ghost(i as nat));
        outs.push(o);
        id = id << 1u64;
        i = i + 1;
    }
    outs
}

} // verus!
