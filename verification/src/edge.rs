//! Directional edges used for snapping, tiling, and window movement.
//!
//! An `Edge` is a set of flags; flags can be combined, for example
//! `Edge::TOP | Edge::LEFT`.
use vstd::prelude::*;
use crate::text::{chars_of, ascii_lower_seq, lower_vec};

verus! {

/// Directional edges used for snapping, tiling, and move-to-edge.
#[derive(Debug, Clone, Copy, PartialEq, Eq, Structural, Hash)]
pub struct Edge {
    pub bits: u32,
}

pub open spec fn has_bit(bits: u32, mask: u32) -> bool {
    bits & mask == mask
}

/// The flags that name a direction: the four sides and the four corners.
pub open spec fn directional_bits() -> u32 {
    0xffu32
}

/// The mirror image of a set of flags: top and bottom swap, left and right
/// swap, and each corner becomes the opposite corner. The center flag on
/// its own is its own mirror image; combined with other flags it is dropped.
pub open spec fn invert_bits(b: u32) -> u32 {
    if b == 0 || b == 0x100 {
        b
    } else {
        (if b & 1 != 0 { 2u32 } else { 0u32 }) | (if b & 2 != 0 { 1u32 } else { 0u32 }) | (if b & 4
            != 0 { 8u32 } else { 0u32 }) | (if b & 8 != 0 { 4u32 } else { 0u32 }) | (if b & 0x10
            != 0 { 0x80u32 } else { 0u32 }) | (if b & 0x80 != 0 { 0x10u32 } else { 0u32 }) | (if b
            & 0x20 != 0 { 0x40u32 } else { 0u32 }) | (if b & 0x40 != 0 { 0x20u32 } else { 0u32 })
    }
}

/// The edge named by an (already lowercased) attribute value.
pub open spec fn edge_named(s: Seq<char>) -> u32 {
    if s == seq!['t', 'o', 'p'] {
        1
    } else if s == seq!['b', 'o', 't', 't', 'o', 'm'] {
        2
    } else if s == seq!['l', 'e', 'f', 't'] {
        4
    } else if s == seq!['r', 'i', 'g', 'h', 't'] {
        8
    } else if s == seq!['t', 'o', 'p', 'l', 'e', 'f', 't'] || s == seq![
        't',
        'o',
        'p',
        '_',
        'l',
        'e',
        'f',
        't',
    ] {
        0x10
    } else if s == seq!['t', 'o', 'p', 'r', 'i', 'g', 'h', 't'] || s == seq![
        't',
        'o',
        'p',
        '_',
        'r',
        'i',
        'g',
        'h',
        't',
    ] {
        0x20
    } else if s == seq!['b', 'o', 't', 't', 'o', 'm', 'l', 'e', 'f', 't'] || s == seq![
        'b',
        'o',
        't',
        't',
        'o',
        'm',
        '_',
        'l',
        'e',
        'f',
        't',
    ] {
        0x40
    } else if s == seq!['b', 'o', 't', 't', 'o', 'm', 'r', 'i', 'g', 'h', 't'] || s == seq![
        'b',
        'o',
        't',
        't',
        'o',
        'm',
        '_',
        'r',
        'i',
        'g',
        'h',
        't',
    ] {
        0x80
    } else if s == seq!['c', 'e', 'n', 't', 'e', 'r'] {
        0x100
    } else {
        0
    }
}

fn is_word(v: &Vec<char>, w: &[char]) -> (b: bool)
    ensures
        b == (v@ == w@),
{
    if v.len() != w.len() {
        return false;
    }
    let mut i: usize = 0;
    while i < v.len()
        invariant
            v.len() == w@.len(),
            i <= v.len(),
            forall|j: int| 0 <= j < i ==> v@[j] == w@[j],
        decreases v.len() - i,
    {
        if v[i] != w[i] {
            return false;
        }
        i = i + 1;
    }
    assert(v@ =~= w@);
    true
}

impl Edge {
    /// No edge.
    pub fn none() -> (e: Edge)
        ensures
            e.bits == 0,
    {
        Edge { bits: 0 }
    }

    /// Top edge of the screen.
    pub fn top() -> (e: Edge)
        ensures
            e.bits == 1,
    {
        Edge { bits: 1 }
    }

    /// Bottom edge of the screen.
    pub fn bottom() -> (e: Edge)
        ensures
            e.bits == 2,
    {
        Edge { bits: 2 }
    }

    /// Left edge of the screen.
    pub fn left() -> (e: Edge)
        ensures
            e.bits == 4,
    {
        Edge { bits: 4 }
    }

    /// Right edge of the screen.
    pub fn right() -> (e: Edge)
        ensures
            e.bits == 8,
    {
        Edge { bits: 8 }
    }

    /// Top-left corner.
    pub fn top_left() -> (e: Edge)
        ensures
            e.bits == 16,
    {
        Edge { bits: 16 }
    }

    /// Top-right corner.
    pub fn top_right() -> (e: Edge)
        ensures
            e.bits == 32,
    {
        Edge { bits: 32 }
    }

    /// Bottom-left corner.
    pub fn bottom_left() -> (e: Edge)
        ensures
            e.bits == 64,
    {
        Edge { bits: 64 }
    }

    /// Bottom-right corner.
    pub fn bottom_right() -> (e: Edge)
        ensures
            e.bits == 128,
    {
        Edge { bits: 128 }
    }

    /// Center position (for tiling).
    pub fn center() -> (e: Edge)
        ensures
            e.bits == 256,
    {
        Edge { bits: 256 }
    }

    /// All four cardinal edges.
    pub fn cardinal() -> (e: Edge)
        ensures
            e.bits == 15,
    {
        Edge { bits: 15 }
    }

    /// The raw flag bits.
    pub fn bits(&self) -> (b: u32)
        ensures
            b == self.bits,
    {
        self.bits
    }

    /// No flag is set.
    pub fn is_empty(&self) -> (b: bool)
        ensures
            b == (self.bits == 0),
    {
        self.bits == 0
    }

    /// Every flag of `other` is set in `self`.
    pub fn contains(&self, other: Edge) -> (b: bool)
        ensures
            b == has_bit(self.bits, other.bits),
    {
        self.bits & other.bits == other.bits
    }

    /// The flags set in either edge.
    pub fn union(self, other: Edge) -> (e: Edge)
        ensures
            e.bits == self.bits | other.bits,
    {
        Edge { bits: self.bits | other.bits }
    }

    /// Returns `true` if this is a single cardinal edge.
    pub fn is_cardinal(self) -> (b: bool)
        ensures
            b == (self.bits == 1 || self.bits == 2 || self.bits == 4 || self.bits == 8),
    {
        self.bits == 1 || self.bits == 2 || self.bits == 4 || self.bits == 8
    }

    /// Returns `true` if this is a corner: one of the corner flags
    /// (`TOP_LEFT`, `TOP_RIGHT`, `BOTTOM_LEFT`, `BOTTOM_RIGHT`), or a side
    /// of each axis together: `TOP | LEFT` (5) is the top-left corner,
    /// `TOP | RIGHT` (9), `BOTTOM | LEFT` (6) and `BOTTOM | RIGHT` (10) the
    /// others.
    pub fn is_corner(self) -> (b: bool)
        ensures
            b == (self.bits == 0x10 || self.bits == 0x20 || self.bits == 0x40 || self.bits == 0x80
                || self.bits == 5 || self.bits == 9 || self.bits == 6 || self.bits == 10),
    {
        let b = self.bits;
        b == 0x10 || b == 0x20 || b == 0x40 || b == 0x80 || b == 5 || b == 9 || b == 6 || b == 10
    }

    /// Invert the edge direction.
    ///
    /// TOP and BOTTOM swap, LEFT and RIGHT swap, corners invert both axes.
    pub fn invert(self) -> (e: Edge)
        ensures
            e.bits == invert_bits(self.bits),
    {
        let b = self.bits;
        if b == 0 || b == 0x100 {
            return self;
        }
        let r: u32 = (if b & 1 != 0 { 2u32 } else { 0u32 }) | (if b & 2 != 0 { 1u32 } else { 0u32 })
            | (if b & 4 != 0 { 8u32 } else { 0u32 }) | (if b & 8 != 0 { 4u32 } else { 0u32 }) | (if b
            & 0x10 != 0 { 0x80u32 } else { 0u32 }) | (if b & 0x80 != 0 { 0x10u32 } else { 0u32 }) | (
        if b & 0x20 != 0 { 0x40u32 } else { 0u32 }) | (if b & 0x40 != 0 { 0x20u32 } else { 0u32 });
        Edge { bits: r }
    }

    /// Parse an edge from an XML attribute string, ignoring case.
    ///
    /// Accepted values: "top", "bottom", "left", "right", "topleft",
    /// "topright", "bottomleft", "bottomright" (each corner also with an
    /// underscore, as in "top_left"), and "center". Anything else is NONE.
    ///
    /// Unicode lowercasing maps no character other than the ASCII capitals
    /// onto the letters of these words, so comparing after ASCII
    /// lowercasing accepts exactly the strings that full lowercasing does.
    pub fn parse(s: &str) -> (e: Edge)
        ensures
            e.bits == edge_named(ascii_lower_seq(s@)),
    {
        let v = lower_vec(&chars_of(s));
        let bits: u32 = if is_word(&v, &['t', 'o', 'p']) {
            1
        } else if is_word(&v, &['b', 'o', 't', 't', 'o', 'm']) {
            2
        } else if is_word(&v, &['l', 'e', 'f', 't']) {
            4
        } else if is_word(&v, &['r', 'i', 'g', 'h', 't']) {
            8
        } else if is_word(&v, &['t', 'o', 'p', 'l', 'e', 'f', 't']) || is_word(
            &v,
            &['t', 'o', 'p', '_', 'l', 'e', 'f', 't'],
        ) {
            0x10
        } else if is_word(&v, &['t', 'o', 'p', 'r', 'i', 'g', 'h', 't']) || is_word(
            &v,
            &['t', 'o', 'p', '_', 'r', 'i', 'g', 'h', 't'],
        ) {
            0x20
        } else if is_word(&v, &['b', 'o', 't', 't', 'o', 'm', 'l', 'e', 'f', 't']) || is_word(
            &v,
            &['b', 'o', 't', 't', 'o', 'm', '_', 'l', 'e', 'f', 't'],
        ) {
            0x40
        } else if is_word(&v, &['b', 'o', 't', 't', 'o', 'm', 'r', 'i', 'g', 'h', 't']) || is_word(
            &v,
            &['b', 'o', 't', 't', 'o', 'm', '_', 'r', 'i', 'g', 'h', 't'],
        ) {
            0x80
        } else if is_word(&v, &['c', 'e', 'n', 't', 'e', 'r']) {
            0x100
        } else {
            0
        };
        Edge { bits }
    }

    /// The default edge is NONE.
    pub fn default_edge() -> (e: Edge)
        ensures
            e.bits == 0,
    {
        Edge::none()
    }
}

/// Inverting twice gives back the original edge, for every edge made of
/// directional flags (sides and corners) and for the center on its own.
pub proof fn lemma_invert_involution(e: Edge)
    requires
        e.bits & !directional_bits() == 0 || e.bits == 0x100,
    ensures
        invert_bits(invert_bits(e.bits)) == e.bits,
{
    let b = e.bits;
    if b != 0 && b != 0x100 {
        assert(b & !0xffu32 == 0u32 && b != 0u32 ==> invert_bits(b) != 0u32 && invert_bits(b)
            != 0x100u32 && invert_bits(invert_bits(b)) == b) by (bit_vector);
    }
}

/// A side inverts to the opposite side and a corner to the opposite corner.
pub proof fn lemma_invert_opposites()
    ensures
        invert_bits(1) == 2,
        invert_bits(2) == 1,
        invert_bits(4) == 8,
        invert_bits(8) == 4,
        invert_bits(0x10) == 0x80,
        invert_bits(0x20) == 0x40,
        invert_bits(0x40) == 0x20,
        invert_bits(0x80) == 0x10,
        invert_bits(0x100) == 0x100,
        invert_bits(0) == 0,
{
    assert(invert_bits(1) == 2) by (bit_vector);
    assert(invert_bits(2) == 1) by (bit_vector);
    assert(invert_bits(4) == 8) by (bit_vector);
    assert(invert_bits(8) == 4) by (bit_vector);
    assert(invert_bits(0x10) == 0x80) by (bit_vector);
    assert(invert_bits(0x20) == 0x40) by (bit_vector);
    assert(invert_bits(0x40) == 0x20) by (bit_vector);
    assert(invert_bits(0x80) == 0x10) by (bit_vector);
}

} // verus!
