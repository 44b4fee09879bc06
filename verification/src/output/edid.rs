//! EDID (Extended Display Identification Data) parser.
//!
//! Parses raw 128-byte or 256-byte EDID blocks, as the kernel exposes them
//! under `/sys/class/drm/card*/edid`, for the manufacturer, model, serial,
//! preferred resolution, refresh rates, color depth, HDR10 support and
//! physical dimensions.
use vstd::prelude::*;

use crate::text::{decimal, push_decimal, push_char};

verus! {

/// A display mode an EDID block announces.
#[derive(Debug, Clone, Copy, PartialEq, Eq, Structural)]
pub struct EdidMode {
    pub width: u32,
    pub height: u32,
    pub refresh_hz: u32,
    pub is_preferred: bool,
    pub is_native: bool,
}

impl EdidMode {
    /// A mode that is neither preferred nor native.
    pub fn new(w: u32, h: u32, hz: u32) -> (m: EdidMode)
        ensures
            m == (EdidMode { width: w, height: h, refresh_hz: hz, is_preferred: false, is_native: false }),
    {
        EdidMode { width: w, height: h, refresh_hz: hz, is_preferred: false, is_native: false }
    }

    /// The mode as `WxH @ RHz`.
    pub fn display_string(&self) -> (s: String)
        ensures
            s@ == decimal(self.width as nat) + "x"@ + decimal(self.height as nat) + " @ "@ + decimal(
                self.refresh_hz as nat,
            ) + "Hz"@,
    {
        let mut s = String::new();
        push_decimal(&mut s, self.width);
        s.append("x");
        push_decimal(&mut s, self.height);
        s.append(" @ ");
        push_decimal(&mut s, self.refresh_hz);
        s.append("Hz");
        s
    }
}

/// What an EDID block tells about a display. `gamma_centi` is the display
/// gamma in hundredths (220 stands for 2.2).
#[derive(Debug, Clone)]
pub struct EdidInfo {
    pub manufacturer: String,
    pub model: String,
    pub serial: String,
    pub physical_width_cm: u8,
    pub physical_height_cm: u8,
    pub gamma_centi: u32,
    pub preferred_mode: Option<EdidMode>,
    pub modes: Vec<EdidMode>,
    pub hdr10_supported: bool,
    pub hdr_st2084: bool,
    pub color_depth: u8,
    pub vrr_min: Option<u32>,
    pub vrr_max: Option<u32>,
}

/// `d` is at least one block long and starts with the EDID header
/// `00 FF FF FF FF FF FF 00`.
pub open spec fn has_edid_header(d: Seq<u8>) -> bool {
    &&& d.len() >= 128
    &&& d[0] == 0x00u8
    &&& d[1] == 0xFFu8
    &&& d[2] == 0xFFu8
    &&& d[3] == 0xFFu8
    &&& d[4] == 0xFFu8
    &&& d[5] == 0xFFu8
    &&& d[6] == 0xFFu8
    &&& d[7] == 0x00u8
}

/// The letter a 5-bit PNP code stands for (1 is `A`).
pub open spec fn pnp_char(x: u16) -> char {
    (x + 64) as char
}

/// The three-letter PNP manufacturer id packed, 5 bits a letter, into the
/// big-endian 16-bit value `b0 b1`.
pub open spec fn pnp_name(b0: u8, b1: u8) -> Seq<char> {
    let packed: u16 = ((b0 as u16) << 8u16) | (b1 as u16);
    seq![
        pnp_char((packed >> 10u16) & 0x1Fu16),
        pnp_char((packed >> 5u16) & 0x1Fu16),
        pnp_char(packed & 0x1Fu16),
    ]
}

/// An upper-case hexadecimal digit.
pub open spec fn hex_digit(d: int) -> char {
    if d < 10 {
        (d + '0' as int) as char
    } else {
        (d - 10 + 'A' as int) as char
    }
}

/// The last `width` hexadecimal digits of `n`, upper case, zero padded.
pub open spec fn hex_fixed(n: nat, width: nat) -> Seq<char>
    decreases width,
{
    if width == 0 {
        Seq::empty()
    } else {
        hex_fixed(n / 16, (width - 1) as nat).push(hex_digit((n % 16) as int))
    }
}

/// The display gamma, in hundredths, of the gamma byte (`FF` leaves it
/// unstated, which reads as 2.2).
pub open spec fn gamma_of(b: u8) -> u32 {
    if b == 0xFFu8 {
        220
    } else {
        (b + 100) as u32
    }
}

/// A rate from a pixel clock in Hz and the pixels of a frame, rounded to
/// the nearest integer, halves up.
pub open spec fn rounded_rate(clock_hz: int, frame: int) -> int {
    (2 * clock_hz + frame) / (2 * frame)
}

/// The mode of the detailed timing descriptor `idx` (of four, the first
/// being the preferred timing), or none where the descriptor is a display
/// descriptor (a zero pixel clock).
pub open spec fn dtd_mode(d: Seq<u8>, idx: int) -> Option<EdidMode> {
    let o = 54 + 18 * idx;
    let clock = (d[o] as u32) | ((d[o + 1] as u32) << 8u32);
    let h_active = (d[o + 2] as u32) | (((d[o + 4] as u32) & 0xF0u32) << 4u32);
    let h_blank = (d[o + 3] as u32) | (((d[o + 4] as u32) & 0x0Fu32) << 8u32);
    let v_active = (d[o + 5] as u32) | (((d[o + 7] as u32) & 0xF0u32) << 4u32);
    let v_blank = (d[o + 6] as u32) | (((d[o + 7] as u32) & 0x0Fu32) << 8u32);
    let h_total = h_active + h_blank;
    let v_total = v_active + v_blank;
    if clock == 0 {
        None
    } else {
        Some(
            EdidMode {
                width: h_active,
                height: v_active,
                refresh_hz: if h_total > 0 && v_total > 0 {
                    rounded_rate(clock * 10000, h_total * v_total) as u32
                } else {
                    60
                },
                is_preferred: idx == 0,
                is_native: idx == 0,
            },
        )
    }
}

/// The mode of the standard timing slot `i` (of eight), or none where the
/// slot is unused (`01 01`).
pub open spec fn std_mode(d: Seq<u8>, i: int) -> Option<EdidMode> {
    let b0 = d[38 + 2 * i];
    let b1 = d[38 + 2 * i + 1];
    let width = ((b0 as u32) + 31) * 8;
    let aspect = (b1 >> 6u8) & 0x03u8;
    let height = if aspect == 0 {
        (width * 10) / 16
    } else if aspect == 1 {
        (width * 3) / 4
    } else if aspect == 2 {
        (width * 4) / 5
    } else {
        (width * 9) / 16
    };
    if b0 == 1 && b1 == 1 {
        None
    } else {
        Some(
            EdidMode {
                width: width as u32,
                height: height as u32,
                refresh_hz: ((b1 & 0x3Fu8) as u32 + 60) as u32,
                is_preferred: false,
                is_native: false,
            },
        )
    }
}

pub open spec fn opt_seq(o: Option<EdidMode>) -> Seq<EdidMode> {
    match o {
        Some(m) => seq![m],
        None => Seq::empty(),
    }
}

/// The modes of the detailed timing descriptors `k..4`.
pub open spec fn dtd_modes_from(d: Seq<u8>, k: int) -> Seq<EdidMode>
    decreases 4 - k,
{
    if k >= 4 {
        Seq::empty()
    } else {
        opt_seq(dtd_mode(d, k)) + dtd_modes_from(d, k + 1)
    }
}

/// The modes of the standard timing slots `k..8`.
pub open spec fn std_modes_from(d: Seq<u8>, k: int) -> Seq<EdidMode>
    decreases 8 - k,
{
    if k >= 8 {
        Seq::empty()
    } else {
        opt_seq(std_mode(d, k)) + std_modes_from(d, k + 1)
    }
}

/// Every mode of the base block, detailed timings first.
pub open spec fn announced_modes(d: Seq<u8>) -> Seq<EdidMode> {
    dtd_modes_from(d, 0) + std_modes_from(d, 0)
}

/// The HDR flags `(ST 2084, HDR10)` after scanning the data blocks of a
/// CEA-861 extension from `offset`: a block's first byte holds its tag (3
/// bits) and length (5 bits); an extended block (tag 7) of length at least
/// 3 whose extended tag is 6 holds the HDR static metadata, whose EOTF byte
/// sets both flags. A zero length moves one byte on.
pub open spec fn cea_hdr_from(d: Seq<u8>, offset: int, flags: (bool, bool)) -> (bool, bool)
    decreases (if offset < 255 { 255 - offset } else { 0 }),
{
    if offset < 0 || offset >= 255 || offset + 1 >= d.len() {
        flags
    } else {
        let tag = (d[offset] >> 5u8) & 0x07u8;
        let length = (d[offset] & 0x1Fu8) as int;
        if length == 0 {
            cea_hdr_from(d, offset + 1, flags)
        } else {
            let next = if tag == 7 && offset + 1 + length <= d.len() && length >= 3 && d[offset + 1]
                == 0x06u8 {
                let eotf = d[offset + 2];
                ((eotf & 0x02u8) != 0, (eotf & 0x04u8) != 0)
            } else {
                flags
            };
            cea_hdr_from(d, offset + 1 + length, next)
        }
    }
}

/// The HDR flags `(ST 2084, HDR10)` of an EDID blob: those of its CEA-861
/// extension, where it has one as its second block.
pub open spec fn cea_hdr(d: Seq<u8>) -> (bool, bool) {
    if d.len() >= 256 && d[128] == 0x02u8 {
        cea_hdr_from(d, 132, (false, false))
    } else {
        (false, false)
    }
}

/// Two modes with the same resolution and refresh rate.
pub open spec fn same_mode_key(a: EdidMode, b: EdidMode) -> bool {
    a.width == b.width && a.height == b.height && a.refresh_hz == b.refresh_hz
}

/// `a` sorts before `b`: a larger width, then height, then refresh rate.
pub open spec fn mode_before(a: EdidMode, b: EdidMode) -> bool {
    a.width > b.width || (a.width == b.width && (a.height > b.height || (a.height == b.height
        && a.refresh_hz > b.refresh_hz)))
}

/// `m[k]` is the first mode of `m` with its key.
pub open spec fn first_of_key(m: Seq<EdidMode>, k: int) -> bool {
    0 <= k < m.len() && forall|l: int| 0 <= l < k ==> !same_mode_key(#[trigger] m[l], m[k])
}

/// `x` is the first mode of `m` with its key.
pub open spec fn taken_from(m: Seq<EdidMode>, x: EdidMode) -> bool {
    exists|k: int| #[trigger] first_of_key(m, k) && m[k] == x
}

/// `r` is `m` sorted by resolution and refresh rate, largest first, with
/// one mode for each key: the first of `m` with that key.
pub open spec fn sorted_distinct_of(r: Seq<EdidMode>, m: Seq<EdidMode>) -> bool {
    &&& forall|i: int, j: int| 0 <= i < j < r.len() ==> mode_before(r[i], r[j])
    &&& forall|i: int| 0 <= i < r.len() ==> #[trigger] taken_from(m, r[i])
    &&& forall|k: int|
        0 <= k < m.len() ==> exists|i: int| 0 <= i < r.len() && same_mode_key(r[i], #[trigger] m[k])
}

proof fn lemma_first_of_key_prefix(m: Seq<EdidMode>, x: EdidMode, k: int)
    requires
        first_of_key(m, k),
    ensures
        first_of_key(m.push(x), k),
        m.push(x)[k] == m[k],
{
    assert forall|l: int| 0 <= l < k implies !same_mode_key(#[trigger] m.push(x)[l], m.push(x)[k]) by {
        assert(m.push(x)[l] == m[l]);
    }
}

/// One step of building the sorted list of distinct modes: `x` has the key
/// of `r[j]` and is dropped.
proof fn lemma_distinct_keep(r: Seq<EdidMode>, m: Seq<EdidMode>, x: EdidMode, j: int)
    requires
        sorted_distinct_of(r, m),
        0 <= j < r.len(),
        same_mode_key(r[j], x),
    ensures
        sorted_distinct_of(r, m.push(x)),
{
    let m2 = m.push(x);
    assert forall|i: int| 0 <= i < r.len() implies #[trigger] taken_from(m2, r[i]) by {
        assert(taken_from(m, r[i]));
        let k = choose|k: int| #[trigger] first_of_key(m, k) && m[k] == r[i];
        lemma_first_of_key_prefix(m, x, k);
    }
    assert forall|k: int| 0 <= k < m2.len() implies exists|i: int|
        0 <= i < r.len() && same_mode_key(r[i], #[trigger] m2[k]) by {
        if k < m.len() {
            assert(m2[k] == m[k]);
            assert(exists|i: int| 0 <= i < r.len() && same_mode_key(r[i], #[trigger] m[k]));
        } else {
            assert(same_mode_key(r[j], m2[k]));
        }
    }
}

/// One step of building the sorted list of distinct modes: `x` has a new
/// key and goes in at `j`.
#[verifier::spinoff_prover]
#[verifier::rlimit(40)]
proof fn lemma_distinct_insert(r: Seq<EdidMode>, m: Seq<EdidMode>, x: EdidMode, j: int)
    requires
        sorted_distinct_of(r, m),
        0 <= j <= r.len(),
        forall|i: int| 0 <= i < j ==> mode_before(#[trigger] r[i], x),
        j < r.len() ==> mode_before(x, r[j]),
        forall|i: int| 0 <= i < r.len() ==> !same_mode_key(#[trigger] r[i], x),
    ensures
        sorted_distinct_of(r.insert(j, x), m.push(x)),
{
    let m2 = m.push(x);
    let r2 = r.insert(j, x);
    assert forall|a: int, b: int| 0 <= a < b < r2.len() implies mode_before(r2[a], r2[b]) by {
        if a < j && b == j {
        } else if a < j && b > j {
            assert(r2[b] == r[b - 1]);
            assert(mode_before(r[a], r[b - 1]));
        } else if a == j {
            assert(r2[b] == r[b - 1]);
            if b - 1 > j {
                assert(mode_before(r[j], r[b - 1]));
            }
        } else if a > j {
            assert(r2[a] == r[a - 1]);
            assert(r2[b] == r[b - 1]);
        }
    }
    assert(first_of_key(m2, m.len() as int)) by {
        assert forall|l: int| 0 <= l < m.len() implies !same_mode_key(#[trigger] m2[l], m2[m.len() as int]) by {
            assert(m2[l] == m[l]);
            assert(exists|i: int| 0 <= i < r.len() && same_mode_key(r[i], #[trigger] m[l]));
            let i = choose|i: int| 0 <= i < r.len() && same_mode_key(r[i], #[trigger] m[l]);
            assert(!same_mode_key(r[i], x));
        }
    }
    assert forall|i: int| 0 <= i < r2.len() implies #[trigger] taken_from(m2, r2[i]) by {
        if i == j {
            assert(m2[m.len() as int] == x);
        } else {
            let i0 = if i < j { i } else { i - 1 };
            assert(r2[i] == r[i0]);
            assert(taken_from(m, r[i0]));
            let k = choose|k: int| #[trigger] first_of_key(m, k) && m[k] == r[i0];
            lemma_first_of_key_prefix(m, x, k);
        }
    }
    assert forall|k: int| 0 <= k < m2.len() implies exists|i: int|
        0 <= i < r2.len() && same_mode_key(r2[i], #[trigger] m2[k]) by {
        if k < m.len() {
            assert(m2[k] == m[k]);
            assert(exists|i: int| 0 <= i < r.len() && same_mode_key(r[i], #[trigger] m[k]));
            let i = choose|i: int| 0 <= i < r.len() && same_mode_key(r[i], #[trigger] m[k]);
            if i < j {
                assert(r2[i] == r[i]);
                assert(same_mode_key(r2[i], m2[k]));
            } else {
                assert(r2[i + 1] == r[i]);
                assert(same_mode_key(r2[i + 1], m2[k]));
            }
        } else {
            assert(r2[j] == x);
            assert(same_mode_key(r2[j], m2[k]));
        }
    }
}

/// Adds `x` to the sorted list of distinct modes `r`, unless a mode with
/// its key is there.
fn add_distinct(r: &mut Vec<EdidMode>, x: EdidMode, Ghost(m): Ghost<Seq<EdidMode>>)
    requires
        sorted_distinct_of(old(r)@, m),
    ensures
        sorted_distinct_of(final(r)@, m.push(x)),
{
    let mut j: usize = 0;
    while j < r.len() && (r[j].width > x.width || (r[j].width == x.width && (r[j].height > x.height
        || (r[j].height == x.height && r[j].refresh_hz > x.refresh_hz))))
        invariant
            j <= r.len(),
            r@ == old(r)@,
            sorted_distinct_of(r@, m),
            forall|i: int| 0 <= i < j ==> mode_before(#[trigger] r@[i], x),
        decreases r.len() - j,
    {
        j = j + 1;
    }
    if j < r.len() && r[j].width == x.width && r[j].height == x.height && r[j].refresh_hz == x.refresh_hz {
        proof {
            lemma_distinct_keep(r@, m, x, j as int);
        }
    } else {
        proof {
            assert forall|i: int| 0 <= i < r@.len() implies !same_mode_key(#[trigger] r@[i], x) by {
                if i > j {
                    assert(mode_before(r@[j as int], r@[i]));
                }
            }
            lemma_distinct_insert(r@, m, x, j as int);
        }
        r.insert(j, x);
    }
}

fn hex_digit_of(d: u32) -> (c: char)
    requires
        d < 16,
    ensures
        c == hex_digit(d as int),
{
    if d < 10 {
        ((d as u8) + 48) as char
    } else {
        ((d as u8) + 55) as char
    }
}

/// Appends the last `width` hexadecimal digits of `n`, upper case, zero
/// padded.
fn push_hex(s: &mut String, n: u32, width: u32)
    ensures
        final(s)@ == old(s)@ + hex_fixed(n as nat, width as nat),
    decreases width,
{
    if width > 0 {
        push_hex(s, n / 16, width - 1);
        push_char(s, hex_digit_of(n % 16));
    } else {
        assert(old(s)@ + Seq::<char>::empty() =~= old(s)@);
    }
}

fn pnp_letter(x: u16) -> (c: char)
    requires
        x <= 31,
    ensures
        c == pnp_char(x),
{
    ((x as u8) + 64) as char
}

impl EdidInfo {
    /// The three-letter manufacturer id packed into `data[0..2]`.
    pub fn decode_manufacturer(data: &[u8]) -> (s: String)
        requires
            data@.len() >= 2,
        ensures
            s@ == pnp_name(data@[0], data@[1]),
    {
        let packed: u16 = ((data[0] as u16) << 8u16) | (data[1] as u16);
        let a: u16 = (packed >> 10u16) & 0x1Fu16;
        let b: u16 = (packed >> 5u16) & 0x1Fu16;
        let c: u16 = packed & 0x1Fu16;
        assert(a <= 31 && b <= 31 && c <= 31) by (bit_vector)
            requires
                a == (packed >> 10u16) & 0x1Fu16,
                b == (packed >> 5u16) & 0x1Fu16,
                c == packed & 0x1Fu16,
        ;
        let mut s = String::new();
        push_char(&mut s, pnp_letter(a));
        push_char(&mut s, pnp_letter(b));
        push_char(&mut s, pnp_letter(c));
        assert(s@ =~= pnp_name(data@[0], data@[1]));
        s
    }
}

/// A 12-bit field: the byte `lo` and four bits of `hi`.
proof fn lemma_field_12(lo: u8, hi: u8)
    ensures
        (lo as u32) | (((hi as u32) & 0xF0u32) << 4u32) <= 4095,
        (lo as u32) | (((hi as u32) & 0x0Fu32) << 8u32) <= 4095,
{
    assert((lo as u32) | (((hi as u32) & 0xF0u32) << 4u32) <= 4095) by (bit_vector);
    assert((lo as u32) | (((hi as u32) & 0x0Fu32) << 8u32) <= 4095) by (bit_vector);
}

/// A 16-bit little-endian field.
proof fn lemma_field_16(lo: u8, hi: u8)
    ensures
        (lo as u32) | ((hi as u32) << 8u32) <= 65535,
{
    assert((lo as u32) | ((hi as u32) << 8u32) <= 65535) by (bit_vector);
}

/// The mode of the detailed timing descriptor `idx`.
fn dtd_at(data: &[u8], idx: usize) -> (r: Option<EdidMode>)
    requires
        data@.len() >= 128,
        idx < 4,
    ensures
        r == dtd_mode(data@, idx as int),
{
    let o = 54 + 18 * idx;
    let clock: u32 = (data[o] as u32) | ((data[o + 1] as u32) << 8u32);
    if clock == 0 {
        return None;
    }
    let h_active: u32 = (data[o + 2] as u32) | (((data[o + 4] as u32) & 0xF0u32) << 4u32);
    let h_blank: u32 = (data[o + 3] as u32) | (((data[o + 4] as u32) & 0x0Fu32) << 8u32);
    let v_active: u32 = (data[o + 5] as u32) | (((data[o + 7] as u32) & 0xF0u32) << 4u32);
    let v_blank: u32 = (data[o + 6] as u32) | (((data[o + 7] as u32) & 0x0Fu32) << 8u32);
    proof {
        lemma_field_12(data@[o + 2], data@[o + 4]);
        lemma_field_12(data@[o + 3], data@[o + 4]);
        lemma_field_12(data@[o + 5], data@[o + 7]);
        lemma_field_12(data@[o + 6], data@[o + 7]);
        lemma_field_16(data@[o as int], data@[o + 1]);
    }
    let h_total: u32 = h_active + h_blank;
    let v_total: u32 = v_active + v_blank;
    let refresh: u32 = if h_total > 0 && v_total > 0 {
        let p: u64 = (clock as u64) * 10000;
        assert((h_total as int) * (v_total as int) <= 8190 * 8190) by (nonlinear_arith)
            requires
                h_total <= 8190,
                v_total <= 8190,
        ;
        let q: u64 = (h_total as u64) * (v_total as u64);
        assert(q <= 8190 * 8190) by (nonlinear_arith)
            requires
                q == (h_total as u64) * (v_total as u64),
                h_total <= 8190,
                v_total <= 8190,
        ;
        assert(q >= 1) by (nonlinear_arith)
            requires
                q == (h_total as u64) * (v_total as u64),
                h_total >= 1,
                v_total >= 1,
        ;
        let rate: u64 = (2 * p + q) / (2 * q);
        assert(rate <= 2 * p + q) by (nonlinear_arith)
            requires
                rate == (2 * p + q) / (2 * q),
                q >= 1,
        ;
        rate as u32
    } else {
        60
    };
    Some(
        EdidMode {
            width: h_active,
            height: v_active,
            refresh_hz: refresh,
            is_preferred: idx == 0,
            is_native: idx == 0,
        },
    )
}

/// The mode of the standard timing slot `i`.
fn std_at(data: &[u8], i: usize) -> (r: Option<EdidMode>)
    requires
        data@.len() >= 128,
        i < 8,
    ensures
        r == std_mode(data@, i as int),
{
    let b0 = data[38 + 2 * i];
    let b1 = data[38 + 2 * i + 1];
    if b0 == 1 && b1 == 1 {
        return None;
    }
    let width: u32 = ((b0 as u32) + 31) * 8;
    let aspect: u8 = (b1 >> 6u8) & 0x03u8;
    let height: u32 = if aspect == 0 {
        (width * 10) / 16
    } else if aspect == 1 {
        (width * 3) / 4
    } else if aspect == 2 {
        (width * 4) / 5
    } else {
        (width * 9) / 16
    };
    Some(
        EdidMode {
            width,
            height,
            refresh_hz: ((b1 & 0x3Fu8) as u32) + 60,
            is_preferred: false,
            is_native: false,
        },
    )
}

/// The HDR flags `(ST 2084, HDR10)` of the blob (see `cea_hdr`).
fn scan_cea_hdr(data: &[u8]) -> (r: (bool, bool))
    ensures
        r == cea_hdr(data@),
{
    if !(data.len() >= 256 && data[128] == 0x02u8) {
        return (false, false);
    }
    let mut offset: usize = 132;
    let mut flags: (bool, bool) = (false, false);
    while offset < 255 && offset + 1 < data.len()
        invariant
            data@.len() >= 256,
            data@[128] == 0x02u8,
            cea_hdr(data@) == cea_hdr_from(data@, offset as int, flags),
            offset <= 255 + 32,
        decreases (if offset < 255 { 255 - offset } else { 0 }),
    {
        let byte = data[offset];
        assert((byte & 0x1Fu8) <= 31u8) by (bit_vector);
        let tag: u8 = (byte >> 5u8) & 0x07u8;
        let length: usize = (byte & 0x1Fu8) as usize;
        if length == 0 {
            offset = offset + 1;
            continue;
        }
        if tag == 7 && offset + 1 + length <= data.len() && length >= 3 && data[offset + 1] == 0x06u8 {
            let eotf = data[offset + 2];
            flags = ((eotf & 0x02u8) != 0, (eotf & 0x04u8) != 0);
        }
        offset = offset + 1 + length;
    }
    flags
}

/// A 16-bit little-endian value.
pub open spec fn le16(lo: u8, hi: u8) -> u32 {
    (lo as u32) | ((hi as u32) << 8u32)
}

/// A 32-bit little-endian value.
pub open spec fn le32(b0: u8, b1: u8, b2: u8, b3: u8) -> u32 {
    (b0 as u32) | ((b1 as u32) << 8u32) | ((b2 as u32) << 16u32) | ((b3 as u32) << 24u32)
}

/// `e` holds what the EDID blob `d` announces: the manufacturer id, the
/// model (manufacturer and product code in hexadecimal), the serial number
/// in hexadecimal, the size, the gamma, the preferred (first detailed)
/// timing, the distinct modes largest first, and the HDR support of the
/// CEA-861 extension, which raises the color depth to 10 bits.
pub open spec fn describes(e: EdidInfo, d: Seq<u8>) -> bool {
    &&& e.manufacturer@ == pnp_name(d[8], d[9])
    &&& e.model@ == pnp_name(d[8], d[9]) + hex_fixed(le16(d[10], d[11]) as nat, 4)
    &&& e.serial@ == hex_fixed(le32(d[12], d[13], d[14], d[15]) as nat, 8)
    &&& e.physical_width_cm == d[21]
    &&& e.physical_height_cm == d[22]
    &&& e.gamma_centi == gamma_of(d[23])
    &&& e.preferred_mode == dtd_mode(d, 0)
    &&& sorted_distinct_of(e.modes@, announced_modes(d))
    &&& (e.hdr_st2084, e.hdr10_supported) == cea_hdr(d)
    &&& e.color_depth == (if e.hdr10_supported { 10u8 } else { 8u8 })
    &&& e.vrr_min is None
    &&& e.vrr_max is None
}

/// The mode a display is best driven at: the preferred timing, else the
/// last listed mode.
pub open spec fn best_mode_of(preferred: Option<EdidMode>, modes: Seq<EdidMode>) -> Option<EdidMode> {
    match preferred {
        Some(m) => Some(m),
        None => if modes.len() > 0 {
            Some(modes.last())
        } else {
            None
        },
    }
}

/// The highest refresh rate of the non-empty list `modes`.
pub open spec fn max_rate(modes: Seq<EdidMode>) -> u32
    decreases modes.len(),
{
    if modes.len() <= 1 {
        modes[0].refresh_hz
    } else {
        let rest = max_rate(modes.drop_last());
        if modes.last().refresh_hz > rest {
            modes.last().refresh_hz
        } else {
            rest
        }
    }
}

/// The highest refresh rate of `modes`, or `default` where there is none.
pub open spec fn max_refresh_of(modes: Seq<EdidMode>, default: u32) -> u32 {
    if modes.len() == 0 {
        default
    } else {
        max_rate(modes)
    }
}

impl EdidInfo {
    /// Parses an EDID blob of one or more 128-byte blocks; `None` where
    /// it is shorter than a block or lacks the EDID header.
    pub fn parse(data: &[u8]) -> (r: Option<EdidInfo>)
        ensures
            r is Some <==> has_edid_header(data@),
            r matches Some(e) ==> describes(e, data@),
    {
        if data.len() < 128 {
            return None;
        }
        if data[0] != 0x00 || data[1] != 0xFF || data[2] != 0xFF || data[3] != 0xFF || data[4]
            != 0xFF || data[5] != 0xFF || data[6] != 0xFF || data[7] != 0x00 {
            return None;
        }
        let manufacturer = EdidInfo::decode_manufacturer(&data[8..10]);
        let product: u32 = (data[10] as u32) | ((data[11] as u32) << 8u32);
        let serial: u32 = (data[12] as u32) | ((data[13] as u32) << 8u32) | ((data[14] as u32) << 16u32)
            | ((data[15] as u32) << 24u32);
        let mut model = EdidInfo::decode_manufacturer(&data[8..10]);
        push_hex(&mut model, product, 4);
        let mut serial_str = String::new();
        push_hex(&mut serial_str, serial, 8);
        assert(serial_str@ =~= hex_fixed(serial as nat, 8));
        let gamma_centi: u32 = if data[23] == 0xFF {
            220
        } else {
            (data[23] as u32) + 100
        };
        let preferred_mode = dtd_at(data, 0);
        let mut modes: Vec<EdidMode> = Vec::new();
        let ghost mut seen: Seq<EdidMode> = Seq::empty();
        let mut idx: usize = 0;
        assert(seen + dtd_modes_from(data@, 0) =~= dtd_modes_from(data@, 0));
        while idx < 4
            invariant
                idx <= 4,
                data@.len() >= 128,
                dtd_modes_from(data@, 0) == seen + dtd_modes_from(data@, idx as int),
                sorted_distinct_of(modes@, seen),
            decreases 4 - idx,
        {
            let ghost before = seen;
            match dtd_at(data, idx) {
                Some(m) => {
                    add_distinct(&mut modes, m, Ghost(seen));
                    proof {
                        seen = seen.push(m);
                        assert(before + (seq![m] + dtd_modes_from(data@, idx + 1)) =~= seen
                            + dtd_modes_from(data@, idx + 1));
                    }
                },
                None => {
                    assert(before + (Seq::<EdidMode>::empty() + dtd_modes_from(data@, idx + 1)) =~= before
                        + dtd_modes_from(data@, idx + 1));
                },
            }
            idx = idx + 1;
        }
        let mut i: usize = 0;
        assert(dtd_modes_from(data@, 4) =~= Seq::<EdidMode>::empty());
        assert(seen =~= dtd_modes_from(data@, 0));
        assert(announced_modes(data@) =~= seen + std_modes_from(data@, 0));
        while i < 8
            invariant
                i <= 8,
                data@.len() >= 128,
                announced_modes(data@) == seen + std_modes_from(data@, i as int),
                sorted_distinct_of(modes@, seen),
            decreases 8 - i,
        {
            let ghost before = seen;
            match std_at(data, i) {
                Some(m) => {
                    add_distinct(&mut modes, m, Ghost(seen));
                    proof {
                        seen = seen.push(m);
                        assert(before + (seq![m] + std_modes_from(data@, i + 1)) =~= seen
                            + std_modes_from(data@, i + 1));
                    }
                },
                None => {
                    assert(before + (Seq::<EdidMode>::empty() + std_modes_from(data@, i + 1)) =~= before
                        + std_modes_from(data@, i + 1));
                },
            }
            i = i + 1;
        }
        assert(std_modes_from(data@, 8) =~= Seq::<EdidMode>::empty());
        assert(seen =~= announced_modes(data@));
        let (hdr_st2084, hdr10) = scan_cea_hdr(data);
        Some(
            EdidInfo {
                manufacturer,
                model,
                serial: serial_str,
                physical_width_cm: data[21],
                physical_height_cm: data[22],
                gamma_centi,
                preferred_mode,
                modes,
                hdr10_supported: hdr10,
                hdr_st2084,
                color_depth: if hdr10 {
                    10
                } else {
                    8
                },
                vrr_min: None,
                vrr_max: None,
            },
        )
    }

    /// The mode a display is best driven at: the preferred timing, else the
    /// last listed mode.
    pub fn best_mode(&self) -> (r: Option<EdidMode>)
        ensures
            r == best_mode_of(self.preferred_mode, self.modes@),
    {
        match self.preferred_mode {
            Some(m) => Some(m),
            None => if self.modes.len() > 0 {
                Some(self.modes[self.modes.len() - 1])
            } else {
                None
            },
        }
    }

    /// The highest refresh rate of the listed modes, 60 where there is none.
    pub fn max_refresh(&self) -> (r: u32)
        ensures
            r == max_refresh_of(self.modes@, 60),
    {
        max_refresh_in(&self.modes, 60)
    }
}

/// The highest refresh rate of `modes`, or `default` where there is none.
pub fn max_refresh_in(modes: &Vec<EdidMode>, default: u32) -> (r: u32)
    ensures
        r == max_refresh_of(modes@, default),
{
    if modes.len() == 0 {
        return default;
    }
    let mut best: u32 = modes[0].refresh_hz;
    let mut i: usize = 1;
    assert(modes@.take(1).len() == 1);
    while i < modes.len()
        invariant
            1 <= i <= modes.len(),
            best == max_rate(modes@.take(i as int)),
        decreases modes.len() - i,
    {
        assert(modes@.take(i + 1).drop_last() =~= modes@.take(i as int));
        if modes[i].refresh_hz > best {
            best = modes[i].refresh_hz;
        }
        i = i + 1;
    }
    assert(modes@.take(i as int) =~= modes@);
    best
}


/// A used standard timing slot gives the mode its two bytes describe: the
/// width is the first byte plus 31, times 8; the refresh rate is 60 plus
/// the low six bits of the second byte; and the height follows from the
/// width by the aspect ratio in the top two bits of the second byte:
/// 16:10, 4:3, 5:4 or 16:9 (rounded down). A slot reading `01 01` is
/// unused and gives no mode.
pub proof fn lemma_std_mode_aspect(d: Seq<u8>, i: int)
    requires
        d.len() >= 128,
        0 <= i < 8,
    ensures
        d[38 + 2 * i] == 1 && d[38 + 2 * i + 1] == 1 ==> std_mode(d, i) is None,
        !(d[38 + 2 * i] == 1 && d[38 + 2 * i + 1] == 1) ==> (std_mode(d, i) matches Some(m) && {
            let b0 = d[38 + 2 * i] as int;
            let b1 = d[38 + 2 * i + 1] as int;
            let w = m.width as int;
            let h = m.height as int;
            &&& w == (b0 + 31) * 8
            &&& m.refresh_hz == b1 % 64 + 60
            &&& b1 / 64 == 0 ==> h * 16 <= w * 10 < h * 16 + 16
            &&& b1 / 64 == 1 ==> h * 4 <= w * 3 < h * 4 + 4
            &&& b1 / 64 == 2 ==> h * 5 <= w * 4 < h * 5 + 5
            &&& b1 / 64 == 3 ==> h * 16 <= w * 9 < h * 16 + 16
            &&& !m.is_preferred && !m.is_native
        }),
{
    let b0 = d[38 + 2 * i];
    let b1 = d[38 + 2 * i + 1];
    assert((b1 >> 6u8) & 0x03u8 == b1 / 64) by (bit_vector);
    assert(b1 & 0x3Fu8 == b1 % 64) by (bit_vector);
    let w: int = ((b0 as u32) + 31) * 8;
    assert(0 <= w <= 2288);
    assert((w * 10) / 16 * 16 <= w * 10 < (w * 10) / 16 * 16 + 16);
    assert((w * 3) / 4 * 4 <= w * 3 < (w * 3) / 4 * 4 + 4);
    assert((w * 4) / 5 * 5 <= w * 4 < (w * 4) / 5 * 5 + 5);
    assert((w * 9) / 16 * 16 <= w * 9 < (w * 9) / 16 * 16 + 16);
}


/// The manufacturer id's three letters are the three 5-bit fields of the
/// big-endian bytes `b0 b1`, read as 1 = `A`: the top five bits after the
/// unused top bit, the five in the middle, and the low five.
pub proof fn lemma_pnp_letters(b0: u8, b1: u8)
    ensures
        pnp_name(b0, b1).len() == 3,
        pnp_name(b0, b1)[0] as int == 64 + (b0 as int / 4) % 32,
        pnp_name(b0, b1)[1] as int == 64 + (b0 as int % 4) * 8 + b1 as int / 32,
        pnp_name(b0, b1)[2] as int == 64 + b1 as int % 32,
{
    let packed: u16 = ((b0 as u16) << 8u16) | (b1 as u16);
    assert((packed >> 10u16) & 0x1Fu16 == ((b0 / 4) % 32) as u16) by (bit_vector)
        requires
            packed == ((b0 as u16) << 8u16) | (b1 as u16),
    ;
    assert((packed >> 5u16) & 0x1Fu16 == ((b0 % 4) * 8 + b1 / 32) as u16) by (bit_vector)
        requires
            packed == ((b0 as u16) << 8u16) | (b1 as u16),
    ;
    assert(packed & 0x1Fu16 == (b1 % 32) as u16) by (bit_vector)
        requires
            packed == ((b0 as u16) << 8u16) | (b1 as u16),
    ;
}

/// Little-endian values: the low byte first, each next byte 256 times
/// the weight of the one before.
pub proof fn lemma_little_endian(b0: u8, b1: u8, b2: u8, b3: u8)
    ensures
        le16(b0, b1) == b0 as int + 256 * (b1 as int),
        le32(b0, b1, b2, b3) == b0 as int + 256 * (b1 as int) + 65536 * (b2 as int) + 16777216 * (b3 as int),
{
    assert((b0 as u32) | ((b1 as u32) << 8u32) == (b0 as u32) + 256 * (b1 as u32)) by (bit_vector);
    assert((b0 as u32) | ((b1 as u32) << 8u32) | ((b2 as u32) << 16u32) | ((b3 as u32) << 24u32)
        == (b0 as u32) + 256 * (b1 as u32) + 65536 * (b2 as u32) + 16777216 * (b3 as u32)) by (bit_vector);
}

/// A hexadecimal digit is `0`-`9` for the values below ten and upper-case
/// `A`-`F` for ten to fifteen.
pub proof fn lemma_hex_digit(d: int)
    requires
        0 <= d < 16,
    ensures
        d < 10 ==> '0' as int <= hex_digit(d) as int <= '9' as int && hex_digit(d) as int - '0' as int == d,
        d >= 10 ==> 'A' as int <= hex_digit(d) as int <= 'F' as int && hex_digit(d) as int - 'A' as int + 10 == d,
{
}

/// A detailed timing descriptor with a pixel clock gives the mode it
/// describes: the width is byte 2 plus 256 times the high nibble of byte
/// 4, the height byte 5 plus 256 times the high nibble of byte 7, and the
/// refresh rate is the pixel clock (bytes 0-1, in units of 10 kHz) over
/// the pixels of a frame (active plus blanking, each way), rounded to the
/// nearest. Only the first descriptor is the preferred, native mode. A
/// zero pixel clock marks a display descriptor, which gives no mode.
pub proof fn lemma_dtd_mode(d: Seq<u8>, idx: int)
    requires
        d.len() >= 128,
        0 <= idx < 4,
    ensures
        ({
            let o = 54 + 18 * idx;
            let clock = d[o] as int + 256 * (d[o + 1] as int);
            let w = d[o + 2] as int + 256 * (d[o + 4] as int / 16);
            let hb = d[o + 3] as int + 256 * (d[o + 4] as int % 16);
            let h = d[o + 5] as int + 256 * (d[o + 7] as int / 16);
            let vb = d[o + 6] as int + 256 * (d[o + 7] as int % 16);
            let frame = (w + hb) * (h + vb);
            &&& clock == 0 ==> dtd_mode(d, idx) is None
            &&& clock != 0 ==> (dtd_mode(d, idx) matches Some(m) && {
                &&& m.width == w
                &&& m.height == h
                &&& m.is_preferred == (idx == 0)
                &&& m.is_native == (idx == 0)
                &&& frame > 0 ==> 2 * frame * m.refresh_hz <= 2 * clock * 10000 + frame
                    < 2 * frame * (m.refresh_hz + 1)
                &&& frame == 0 ==> m.refresh_hz == 60
            })
        }),
{
    let o = 54 + 18 * idx;
    let (b0, b1, b2, b3, b4, b5, b6, b7) = (d[o], d[o + 1], d[o + 2], d[o + 3], d[o + 4], d[o + 5], d[o + 6], d[o + 7]);
    assert((b0 as u32) | ((b1 as u32) << 8u32) == (b0 as u32) + 256 * (b1 as u32)) by (bit_vector);
    assert((b2 as u32) | (((b4 as u32) & 0xF0u32) << 4u32) == (b2 as u32) + 256 * ((b4 as u32) / 16)) by (bit_vector);
    assert((b3 as u32) | (((b4 as u32) & 0x0Fu32) << 8u32) == (b3 as u32) + 256 * ((b4 as u32) % 16)) by (bit_vector);
    assert((b5 as u32) | (((b7 as u32) & 0xF0u32) << 4u32) == (b5 as u32) + 256 * ((b7 as u32) / 16)) by (bit_vector);
    assert((b6 as u32) | (((b7 as u32) & 0x0Fu32) << 8u32) == (b6 as u32) + 256 * ((b7 as u32) % 16)) by (bit_vector);
    let clock = b0 as int + 256 * (b1 as int);
    let w = b2 as int + 256 * (b4 as int / 16);
    let hb = b3 as int + 256 * (b4 as int % 16);
    let h = b5 as int + 256 * (b7 as int / 16);
    let vb = b6 as int + 256 * (b7 as int % 16);
    let frame = (w + hb) * (h + vb);
    if clock != 0 && w + hb > 0 && h + vb > 0 {
        let c = clock * 10000;
        let q = (2 * c + frame) / (2 * frame);
        assert(frame > 0) by (nonlinear_arith)
            requires
                w + hb > 0,
                h + vb > 0,
                frame == (w + hb) * (h + vb),
        ;
        assert(2 * frame * q <= 2 * c + frame < 2 * frame * (q + 1)) by (nonlinear_arith)
            requires
                frame > 0,
                c >= 0,
                q == (2 * c + frame) / (2 * frame),
        ;
        assert(0 <= q <= 2 * c + frame) by (nonlinear_arith)
            requires
                frame > 0,
                c >= 0,
                q == (2 * c + frame) / (2 * frame),
        ;
        assert(w + hb <= 8190 && h + vb <= 8190);
        assert(frame <= 8190 * 8190) by (nonlinear_arith)
            requires
                0 < w + hb <= 8190,
                0 < h + vb <= 8190,
                frame == (w + hb) * (h + vb),
        ;
    }
    if clock != 0 && (w + hb == 0 || h + vb == 0) {
        assert(frame == 0) by (nonlinear_arith)
            requires
                w + hb == 0 || h + vb == 0,
                frame == (w + hb) * (h + vb),
        ;
    }
}


/// The value of an upper-case hexadecimal digit.
pub open spec fn hex_value_of(c: char) -> int {
    if '0' <= c && c <= '9' {
        c as int - '0' as int
    } else {
        c as int - 'A' as int + 10
    }
}

/// The number that the hexadecimal digits `s` write, most significant
/// first.
pub open spec fn hex_number(s: Seq<char>) -> int
    decreases s.len(),
{
    if s.len() == 0 {
        0
    } else {
        hex_number(s.drop_last()) * 16 + hex_value_of(s.last())
    }
}

/// Sixteen to the power `w`.
pub open spec fn pow16(w: nat) -> int
    decreases w,
{
    if w == 0 {
        1
    } else {
        16 * pow16((w - 1) as nat)
    }
}

/// The `width` hexadecimal digits written for `n` are upper-case digits
/// that write `n` modulo `16^width`: the low digits of `n`, most
/// significant first.
pub proof fn lemma_hex_fixed_writes(n: nat, width: nat)
    ensures
        hex_fixed(n, width).len() == width,
        forall|j: int| 0 <= j < width ==> {
            let c = #[trigger] hex_fixed(n, width)[j];
            ('0' <= c && c <= '9') || ('A' <= c && c <= 'F')
        },
        pow16(width) > 0,
        hex_number(hex_fixed(n, width)) == n as int % pow16(width),
    decreases width,
{
    if width > 0 {
        let w1 = (width - 1) as nat;
        lemma_hex_fixed_writes(n / 16, w1);
        let s = hex_fixed(n, width);
        assert(s.drop_last() == hex_fixed(n / 16, w1));
        let d = (n % 16) as int;
        lemma_hex_digit(d);
        assert(hex_value_of(hex_digit(d)) == d);
        assert forall|j: int| 0 <= j < width implies {
            let c = #[trigger] s[j];
            ('0' <= c && c <= '9') || ('A' <= c && c <= 'F')
        } by {
            if j < w1 {
                assert(s[j] == hex_fixed(n / 16, w1)[j]);
            }
        }
        vstd::arithmetic::div_mod::lemma_mod_breakdown(n as int, 16, pow16(w1));
        assert(16 * pow16(w1) == pow16(width));
        assert(hex_number(s) == hex_number(hex_fixed(n / 16, w1)) * 16 + d);
        assert((n as int / 16) % pow16(w1) * 16 == 16 * ((n as int / 16) % pow16(w1))) by (nonlinear_arith);
    }
}


/// What a parsed EDID reports, byte by byte: the manufacturer's three
/// letters from bytes 8-9, the model as those letters and the product code
/// (bytes 10-11, little-endian) in four hexadecimal digits, the serial
/// number (bytes 12-15, little-endian) in eight, the size in centimetres
/// from bytes 21 and 22, the gamma from byte 23 (`FF` reading as 2.20),
/// the first detailed timing as the preferred mode, and 10-bit color
/// exactly where HDR10 is supported.
pub proof fn lemma_describes_fields(e: EdidInfo, d: Seq<u8>)
    requires
        describes(e, d),
    ensures
        e.manufacturer@.len() == 3,
        e.manufacturer@[0] as int == 64 + (d[8] as int / 4) % 32,
        e.manufacturer@[1] as int == 64 + (d[8] as int % 4) * 8 + d[9] as int / 32,
        e.manufacturer@[2] as int == 64 + d[9] as int % 32,
        e.model@.len() == 7,
        e.model@.take(3) == e.manufacturer@,
        hex_number(e.model@.skip(3)) == d[10] as int + 256 * (d[11] as int),
        e.serial@.len() == 8,
        hex_number(e.serial@) == d[12] as int + 256 * (d[13] as int) + 65536 * (d[14] as int) + 16777216 * (
        d[15] as int),
        e.physical_width_cm == d[21],
        e.physical_height_cm == d[22],
        d[23] == 0xFF ==> e.gamma_centi == 220,
        d[23] != 0xFF ==> e.gamma_centi == d[23] as int + 100,
        e.preferred_mode == dtd_mode(d, 0),
        e.color_depth == 10 <==> e.hdr10_supported,
        e.color_depth == 8 <==> !e.hdr10_supported,
{
    lemma_pnp_letters(d[8], d[9]);
    lemma_little_endian(d[10], d[11], 0, 0);
    lemma_little_endian(d[12], d[13], d[14], d[15]);
    let p = le16(d[10], d[11]) as nat;
    let q = le32(d[12], d[13], d[14], d[15]) as nat;
    lemma_hex_fixed_writes(p, 4);
    lemma_hex_fixed_writes(q, 8);
    assert(e.model@.skip(3) =~= hex_fixed(p, 4));
    assert(e.model@.take(3) =~= pnp_name(d[8], d[9]));
    reveal_with_fuel(pow16, 9);
    assert(pow16(4) == 65536);
    assert(pow16(8) == 4294967296);
}

} // verus!
