//! Rendering core for a home-automation status image service.
//!
//! The library turns resolved sensor/device records into raster images for
//! small display panels: a single-entity status card, a multi-sensor list
//! panel, and a fixed 800x480 1-bit e-paper panel. Everything is drawn with
//! a built-in 8x6 bitmap font onto owned pixel buffers; the finished buffer
//! is handed to a PNG encoder at the very end.

use vstd::prelude::*;

pub mod canvas;
pub mod card;
pub mod color;
pub mod entity;
pub mod epaper;
pub mod format;
pub mod glyphs;
pub mod numfmt;
pub mod panel;
pub mod png;
pub mod quantize;
pub mod strutil;
pub mod text;

verus! {

/// Why a panel render was refused or failed.
#[derive(Clone, Copy, PartialEq, Eq, Structural, Debug)]
pub enum RenderError {
    /// The sensor list was empty.
    NoSensors,
    /// The sensor list exceeded the template's maximum.
    TooManySensors,
    /// The PNG encoder refused the finished canvas.
    EncodingFailed,
}

} // verus!
