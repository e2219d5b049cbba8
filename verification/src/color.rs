//! Colors: RGB pixels, the four-way semantic color class, and the integer
//! channel interpolation used by gradient fills.

use vstd::prelude::*;

use crate::strutil::{lower, lower_char, str_eq, to_lower};

verus! {

/// One RGB pixel, 8 bits per channel.
#[derive(Clone, Copy, PartialEq, Eq, Structural, Debug)]
pub struct Rgb {
    pub r: u8,
    pub g: u8,
    pub b: u8,
}

/// Semantic bucket for an entity state; drives every piece of status coloring.
#[derive(Clone, Copy, PartialEq, Eq, Structural, Debug)]
pub enum ColorClass {
    Positive,
    Negative,
    Unavailable,
    Neutral,
}

/// The semantic class of a state string: fixed keyword sets, matched on
/// the ASCII-lowercased state.
pub open spec fn spec_color_class(state: Seq<char>) -> ColorClass {
    let l = lower(state);
    if l == "on"@ || l == "open"@ || l == "active"@ || l == "home"@ || l == "detected"@ {
        ColorClass::Positive
    } else if l == "off"@ || l == "closed"@ || l == "inactive"@ || l == "away"@ || l == "clear"@ {
        ColorClass::Negative
    } else if l == "unavailable"@ || l == "unknown"@ {
        ColorClass::Unavailable
    } else {
        ColorClass::Neutral
    }
}

/// Classify a state string into its semantic color class.
pub fn classify_state(state: &str) -> (r: ColorClass)
    ensures
        r == spec_color_class(state@),
{
    let l = to_lower(state);
    let ls = l.as_str();
    if str_eq(ls, "on") || str_eq(ls, "open") || str_eq(ls, "active") || str_eq(ls, "home")
        || str_eq(ls, "detected") {
        ColorClass::Positive
    } else if str_eq(ls, "off") || str_eq(ls, "closed") || str_eq(ls, "inactive") || str_eq(
        ls,
        "away",
    ) || str_eq(ls, "clear") {
        ColorClass::Negative
    } else if str_eq(ls, "unavailable") || str_eq(ls, "unknown") {
        ColorClass::Unavailable
    } else {
        ColorClass::Neutral
    }
}

/// Classification is case-insensitive: a state and its lowercased form
/// always land in the same class. Together with the totality of
/// `spec_color_class` as a function, every state maps to exactly one of
/// the four classes.
pub proof fn lemma_class_case_insensitive(state: Seq<char>)
    ensures
        spec_color_class(state) == spec_color_class(lower(state)),
{
    assert(lower(lower(state)) =~= lower(state)) by {
        assert forall|k: int| 0 <= k < state.len() implies lower(lower(state))[k] == lower(
            state,
        )[k] by {
            assert(lower(state)[k] == lower_char(state[k]));
        }
    }
}

/// The background gradient pair for a color class.
pub open spec fn spec_background_gradient(c: ColorClass) -> (Rgb, Rgb) {
    match c {
        ColorClass::Positive => (Rgb { r: 230, g: 255, b: 230 }, Rgb { r: 200, g: 255, b: 200 }),
        ColorClass::Negative => (Rgb { r: 255, g: 230, b: 230 }, Rgb { r: 255, g: 200, b: 200 }),
        ColorClass::Unavailable => (
            Rgb { r: 240, g: 240, b: 240 },
            Rgb { r: 220, g: 220, b: 220 },
        ),
        ColorClass::Neutral => (Rgb { r: 250, g: 250, b: 255 }, Rgb { r: 240, g: 240, b: 255 }),
    }
}

pub fn background_gradient(c: ColorClass) -> (r: (Rgb, Rgb))
    ensures
        r == spec_background_gradient(c),
{
    match c {
        ColorClass::Positive => (Rgb { r: 230, g: 255, b: 230 }, Rgb { r: 200, g: 255, b: 200 }),
        ColorClass::Negative => (Rgb { r: 255, g: 230, b: 230 }, Rgb { r: 255, g: 200, b: 200 }),
        ColorClass::Unavailable => (
            Rgb { r: 240, g: 240, b: 240 },
            Rgb { r: 220, g: 220, b: 220 },
        ),
        ColorClass::Neutral => (Rgb { r: 250, g: 250, b: 255 }, Rgb { r: 240, g: 240, b: 255 }),
    }
}

/// The status band gradient pair for a color class.
pub open spec fn spec_status_gradient(c: ColorClass) -> (Rgb, Rgb) {
    match c {
        ColorClass::Positive => (Rgb { r: 80, g: 180, b: 80 }, Rgb { r: 60, g: 160, b: 60 }),
        ColorClass::Negative => (Rgb { r: 180, g: 80, b: 80 }, Rgb { r: 160, g: 60, b: 60 }),
        ColorClass::Unavailable => (
            Rgb { r: 140, g: 140, b: 140 },
            Rgb { r: 120, g: 120, b: 120 },
        ),
        ColorClass::Neutral => (Rgb { r: 80, g: 130, b: 180 }, Rgb { r: 60, g: 110, b: 160 }),
    }
}

pub fn status_gradient(c: ColorClass) -> (r: (Rgb, Rgb))
    ensures
        r == spec_status_gradient(c),
{
    match c {
        ColorClass::Positive => (Rgb { r: 80, g: 180, b: 80 }, Rgb { r: 60, g: 160, b: 60 }),
        ColorClass::Negative => (Rgb { r: 180, g: 80, b: 80 }, Rgb { r: 160, g: 60, b: 60 }),
        ColorClass::Unavailable => (
            Rgb { r: 140, g: 140, b: 140 },
            Rgb { r: 120, g: 120, b: 120 },
        ),
        ColorClass::Neutral => (Rgb { r: 80, g: 130, b: 180 }, Rgb { r: 60, g: 110, b: 160 }),
    }
}

/// The status indicator disc colors for a color class: `(fill, ring)`.
pub open spec fn spec_indicator_colors(c: ColorClass) -> (Rgb, Rgb) {
    match c {
        ColorClass::Positive => (Rgb { r: 50, g: 205, b: 50 }, Rgb { r: 34, g: 139, b: 34 }),
        ColorClass::Negative => (Rgb { r: 220, g: 20, b: 60 }, Rgb { r: 178, g: 34, b: 34 }),
        ColorClass::Unavailable => (
            Rgb { r: 169, g: 169, b: 169 },
            Rgb { r: 105, g: 105, b: 105 },
        ),
        ColorClass::Neutral => (Rgb { r: 30, g: 144, b: 255 }, Rgb { r: 0, g: 100, b: 200 }),
    }
}

pub fn indicator_colors(c: ColorClass) -> (r: (Rgb, Rgb))
    ensures
        r == spec_indicator_colors(c),
{
    match c {
        ColorClass::Positive => (Rgb { r: 50, g: 205, b: 50 }, Rgb { r: 34, g: 139, b: 34 }),
        ColorClass::Negative => (Rgb { r: 220, g: 20, b: 60 }, Rgb { r: 178, g: 34, b: 34 }),
        ColorClass::Unavailable => (
            Rgb { r: 169, g: 169, b: 169 },
            Rgb { r: 105, g: 105, b: 105 },
        ),
        ColorClass::Neutral => (Rgb { r: 30, g: 144, b: 255 }, Rgb { r: 0, g: 100, b: 200 }),
    }
}

/// Linear interpolation of one channel at position `num` out of `den`,
/// truncating to an integer: `(c1*(den-num) + c2*num) / den`.
pub open spec fn spec_blend_channel(c1: u8, c2: u8, num: int, den: int) -> int {
    (c1 * (den - num) + c2 * num) / den
}

proof fn lemma_blend_channel_bounds(c1: u8, c2: u8, num: int, den: int)
    requires
        0 <= num <= den,
        0 < den,
    ensures
        0 <= spec_blend_channel(c1, c2, num, den) <= 255,
{
    assert(c1 * (den - num) + c2 * num <= 255 * den && c1 * (den - num) + c2 * num >= 0)
        by (nonlinear_arith)
        requires
            0 <= num <= den,
            0 <= c1 <= 255,
            0 <= c2 <= 255,
    ;
    assert((c1 * (den - num) + c2 * num) / den <= 255) by (nonlinear_arith)
        requires
            0 < den,
            c1 * (den - num) + c2 * num <= 255 * den,
    ;
    assert((c1 * (den - num) + c2 * num) / den >= 0) by (nonlinear_arith)
        requires
            0 < den,
            c1 * (den - num) + c2 * num >= 0,
    ;
}

fn blend_channel(c1: u8, c2: u8, num: u32, den: u32) -> (r: u8)
    requires
        num <= den,
        0 < den,
    ensures
        r == spec_blend_channel(c1, c2, num as int, den as int),
{
    proof {
        lemma_blend_channel_bounds(c1, c2, num as int, den as int);
    }
    let diff: u32 = den - num;
    assert((c1 as int) * (diff as int) <= 255 * 0x1_0000_0000int) by (nonlinear_arith)
        requires
            c1 as int <= 255,
            0 <= diff as int <= 0x1_0000_0000int,
    ;
    assert((c2 as int) * (num as int) <= 255 * 0x1_0000_0000int) by (nonlinear_arith)
        requires
            c2 as int <= 255,
            0 <= num as int <= 0x1_0000_0000int,
    ;
    let v: u64 = ((c1 as u64) * (diff as u64) + (c2 as u64) * (num as u64)) / (den as u64);
    v as u8
}

/// Channel-wise linear interpolation between two colors at position `num`
/// out of `den`, truncating each channel to an integer.
pub open spec fn spec_blend(c1: Rgb, c2: Rgb, num: int, den: int) -> Rgb {
    Rgb {
        r: spec_blend_channel(c1.r, c2.r, num, den) as u8,
        g: spec_blend_channel(c1.g, c2.g, num, den) as u8,
        b: spec_blend_channel(c1.b, c2.b, num, den) as u8,
    }
}

pub fn blend_colors(c1: Rgb, c2: Rgb, num: u32, den: u32) -> (r: Rgb)
    requires
        num <= den,
        0 < den,
    ensures
        r == spec_blend(c1, c2, num as int, den as int),
{
    proof {
        lemma_blend_channel_bounds(c1.r, c2.r, num as int, den as int);
        lemma_blend_channel_bounds(c1.g, c2.g, num as int, den as int);
        lemma_blend_channel_bounds(c1.b, c2.b, num as int, den as int);
    }
    Rgb {
        r: blend_channel(c1.r, c2.r, num, den),
        g: blend_channel(c1.g, c2.g, num, den),
        b: blend_channel(c1.b, c2.b, num, den),
    }
}

} // verus!
