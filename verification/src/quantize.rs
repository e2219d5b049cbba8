//! Grayscale-to-1-bit quantization for the e-paper target.

use vstd::prelude::*;

use crate::canvas::Canvas;

verus! {

/// One quantized sample: white above the threshold, black at or below it.
pub open spec fn spec_quantize_px(v: u8, threshold: u8) -> u8 {
    if v > threshold {
        255
    } else {
        0
    }
}

/// Threshold a grayscale canvas into a pure black/white canvas of the same
/// size. Pure: a fresh canvas, no aliasing with the input.
pub fn quantize(src: &Canvas<u8>, threshold: u8) -> (out: Canvas<u8>)
    requires
        src.wf(),
    ensures
        out.wf(),
        out.same_size(src),
        forall|i: int, j: int|
            src.in_bounds(i, j) ==> out.px(i, j) == spec_quantize_px(src.px(i, j), threshold),
{
    let w = src.width();
    let h = src.height();
    let mut out: Canvas<u8> = Canvas::new(w, h, 0);
    let mut j: usize = 0;
    while j < h
        invariant
            src.wf(),
            out.wf(),
            w == src.spec_width(),
            h == src.spec_height(),
            w == out.spec_width(),
            h == out.spec_height(),
            j <= h,
            forall|i2: int, j2: int|
                src.in_bounds(i2, j2) && j2 < j ==> out.px(i2, j2) == spec_quantize_px(
                    src.px(i2, j2),
                    threshold,
                ),
        decreases h - j,
    {
        let mut i: usize = 0;
        while i < w
            invariant
                src.wf(),
                out.wf(),
                w == src.spec_width(),
                h == src.spec_height(),
                w == out.spec_width(),
                h == out.spec_height(),
                j < h,
                i <= w,
                forall|i2: int, j2: int|
                    src.in_bounds(i2, j2) && (j2 < j || (j2 == j && i2 < i)) ==> out.px(i2, j2)
                        == spec_quantize_px(src.px(i2, j2), threshold),
            decreases w - i,
        {
            let v = src.get_pixel(i, j);
            let b: u8 = if v > threshold {
                255
            } else {
                0
            };
            out.set_pixel(i, j, b);
            i = i + 1;
        }
        j = j + 1;
    }
    out
}

/// Quantization is idempotent: on a canvas that already holds only the
/// values 0 and 255, one more quantization pass with any threshold
/// strictly between 0 and 255 changes no pixel.
pub proof fn lemma_quantize_idempotent(c: Canvas<u8>, threshold: u8)
    requires
        0 < threshold < 255,
        forall|i: int, j: int| c.in_bounds(i, j) ==> c.px(i, j) == 0 || c.px(i, j) == 255,
    ensures
        forall|i: int, j: int|
            c.in_bounds(i, j) ==> spec_quantize_px(c.px(i, j), threshold) == c.px(i, j),
{
}

} // verus!
