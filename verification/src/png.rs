//! The encoder boundary: finished canvases are flattened to raw sample
//! buffers in verified code and handed to the PNG encoder of the `image`
//! crate through trusted wrappers. Only the pixel contents are specified;
//! the container bitstream is named, not described.

use vstd::prelude::*;

use crate::canvas::Canvas;
use crate::color::Rgb;
use vstd::arithmetic::div_mod::lemma_fundamental_div_mod_converse;

verus! {

/// The PNG bitstream the encoder produces for an RGB8 image with the given
/// size and row-major samples. A fixed function of its arguments alone.
pub uninterp spec fn rgb_png_bytes(width: int, height: int, pixels: Seq<u8>) -> Seq<u8>;

/// The PNG bitstream the encoder produces for an 8-bit grayscale image
/// with the given size and row-major samples.
pub uninterp spec fn gray_png_bytes(width: int, height: int, pixels: Seq<u8>) -> Seq<u8>;

/// The row-major RGB samples of a canvas, three bytes per pixel.
pub open spec fn spec_rgb_bytes(c: &Canvas<Rgb>) -> Seq<u8> {
    Seq::new(
        (3 * c.spec_width() * c.spec_height()) as nat,
        |k: int|
            {
                let p = k / 3;
                let ch = k % 3;
                let j = p / c.spec_width();
                let i = p % c.spec_width();
                if ch == 0 {
                    c.px(i, j).r
                } else if ch == 1 {
                    c.px(i, j).g
                } else {
                    c.px(i, j).b
                }
            },
    )
}

/// The row-major samples of a grayscale canvas, one byte per pixel.
pub open spec fn spec_gray_bytes(c: &Canvas<u8>) -> Seq<u8> {
    Seq::new(
        (c.spec_width() * c.spec_height()) as nat,
        |k: int| c.px(k % c.spec_width(), k / c.spec_width()),
    )
}

proof fn lemma_flat_index(w: int, h: int, i: int, j: int, ch: int)
    requires
        0 <= i < w,
        0 <= j < h,
        0 <= ch < 3,
    ensures
        (3 * (j * w + i) + ch) / 3 == j * w + i,
        (3 * (j * w + i) + ch) % 3 == ch,
        (j * w + i) / w == j,
        (j * w + i) % w == i,
        0 <= 3 * (j * w + i) + ch < 3 * w * h,
{
    assert(0 <= j * w + i && j * w + i < w * h) by (nonlinear_arith)
        requires
            0 <= i < w,
            0 <= j < h,
    ;
    lemma_fundamental_div_mod_converse(3 * (j * w + i) + ch, 3, j * w + i, ch);
    lemma_fundamental_div_mod_converse(j * w + i, w, j, i);
    assert(3 * (j * w + i) + ch < 3 * (w * h)) by (nonlinear_arith)
        requires
            j * w + i < w * h,
            ch < 3,
    ;
    assert(3 * (w * h) == 3 * w * h) by (nonlinear_arith);
}

/// Flatten an RGB canvas into its row-major sample buffer.
pub fn canvas_rgb_bytes(c: &Canvas<Rgb>) -> (v: Vec<u8>)
    requires
        c.wf(),
    ensures
        v@ == spec_rgb_bytes(c),
{
    let w = c.width();
    let h = c.height();
    let mut v: Vec<u8> = Vec::new();
    let mut j: usize = 0;
    while j < h
        invariant
            c.wf(),
            w == c.spec_width(),
            h == c.spec_height(),
            j <= h,
            v@.len() == 3 * (j * w),
            forall|k: int| 0 <= k < v@.len() ==> v@[k] == spec_rgb_bytes(c)[k],
        decreases h - j,
    {
        let mut i: usize = 0;
        while i < w
            invariant
                c.wf(),
                w == c.spec_width(),
                h == c.spec_height(),
                j < h,
                i <= w,
                v@.len() == 3 * (j * w + i),
                forall|k: int| 0 <= k < v@.len() ==> v@[k] == spec_rgb_bytes(c)[k],
            decreases w - i,
        {
            let p = c.get_pixel(i, j);
            proof {
                lemma_flat_index(w as int, h as int, i as int, j as int, 0);
                lemma_flat_index(w as int, h as int, i as int, j as int, 1);
                lemma_flat_index(w as int, h as int, i as int, j as int, 2);
            }
            v.push(p.r);
            v.push(p.g);
            v.push(p.b);
            i = i + 1;
        }
        proof {
            assert(3 * ((j as int) * (w as int) + (w as int)) == 3 * (((j as int) + 1) * (
            w as int))) by (nonlinear_arith);
        }
        j = j + 1;
    }
    proof {
        assert(3 * ((h as int) * (w as int)) == 3 * (w as int) * (h as int)) by (nonlinear_arith);
        assert(v@ =~= spec_rgb_bytes(c));
    }
    v
}

/// Flatten a grayscale canvas into its row-major sample buffer.
pub fn canvas_gray_bytes(c: &Canvas<u8>) -> (v: Vec<u8>)
    requires
        c.wf(),
    ensures
        v@ == spec_gray_bytes(c),
{
    let w = c.width();
    let h = c.height();
    let mut v: Vec<u8> = Vec::new();
    let mut j: usize = 0;
    while j < h
        invariant
            c.wf(),
            w == c.spec_width(),
            h == c.spec_height(),
            j <= h,
            v@.len() == j * w,
            forall|k: int| 0 <= k < v@.len() ==> v@[k] == spec_gray_bytes(c)[k],
        decreases h - j,
    {
        let mut i: usize = 0;
        while i < w
            invariant
                c.wf(),
                w == c.spec_width(),
                h == c.spec_height(),
                j < h,
                i <= w,
                v@.len() == j * w + i,
                forall|k: int| 0 <= k < v@.len() ==> v@[k] == spec_gray_bytes(c)[k],
            decreases w - i,
        {
            let p = c.get_pixel(i, j);
            proof {
                assert(0 <= (j as int) * (w as int) + i && (j as int) * (w as int) + i < (
                w as int) * (h as int)) by (nonlinear_arith)
                    requires
                        0 <= (i as int) < w as int,
                        0 <= (j as int) < h as int,
                ;
                lemma_fundamental_div_mod_converse(
                    (j as int) * (w as int) + i,
                    w as int,
                    j as int,
                    i as int,
                );
            }
            v.push(p);
            i = i + 1;
        }
        proof {
            assert((j as int) * (w as int) + (w as int) == ((j as int) + 1) * (w as int))
                by (nonlinear_arith);
        }
        j = j + 1;
    }
    proof {
        assert((h as int) * (w as int) == (w as int) * (h as int)) by (nonlinear_arith);
        assert(v@ =~= spec_gray_bytes(c));
    }
    v
}

/// Relies on `image::RgbImage::from_raw` (which accepts a buffer of
/// exactly `width * height * 3` samples) and `ImageBuffer::write_to` with
/// `ImageFormat::Png`, whose output is a deterministic function of the
/// samples and dimensions. For this color type the PNG encoder fails only
/// on a zero dimension, and the in-memory cursor cannot fail, so encoding
/// succeeds whenever both dimensions are positive.
#[verifier::external_body]
fn rgb_png_encode(width: u32, height: u32, pixels: Vec<u8>) -> (r: Option<Vec<u8>>)
    requires
        pixels@.len() == width * height * 3,
    ensures
        r is Some ==> r.unwrap()@ == rgb_png_bytes(width as int, height as int, pixels@),
        width > 0 && height > 0 ==> r is Some,
{
    let img: image::RgbImage = image::ImageBuffer::from_raw(width, height, pixels)?;
    let mut cur = std::io::Cursor::new(Vec::new());
    img.write_to(&mut cur, image::ImageFormat::Png).ok()?;
    Some(cur.into_inner())
}

/// Relies on `image::GrayImage::from_raw` (which accepts a buffer of
/// exactly `width * height` samples) and `ImageBuffer::write_to` with
/// `ImageFormat::Png`, whose output is a deterministic function of the
/// samples and dimensions. As for the RGB wrapper, encoding succeeds
/// whenever both dimensions are positive.
#[verifier::external_body]
fn gray_png_encode(width: u32, height: u32, pixels: Vec<u8>) -> (r: Option<Vec<u8>>)
    requires
        pixels@.len() == width * height,
    ensures
        r is Some ==> r.unwrap()@ == gray_png_bytes(width as int, height as int, pixels@),
        width > 0 && height > 0 ==> r is Some,
{
    let img: image::GrayImage = image::ImageBuffer::from_raw(width, height, pixels)?;
    let mut cur = std::io::Cursor::new(Vec::new());
    img.write_to(&mut cur, image::ImageFormat::Png).ok()?;
    Some(cur.into_inner())
}

/// Encode an RGB canvas as a PNG byte stream.
pub fn encode_canvas_png(c: &Canvas<Rgb>) -> (r: Option<Vec<u8>>)
    requires
        c.wf(),
    ensures
        r is Some ==> r.unwrap()@ == rgb_png_bytes(
            c.spec_width(),
            c.spec_height(),
            spec_rgb_bytes(c),
        ),
        c.spec_width() > 0 && c.spec_height() > 0 ==> r is Some,
{
    let bytes = canvas_rgb_bytes(c);
    let w = c.width();
    let h = c.height();
    proof {
        assert(3 * (w as int) * (h as int) == (w as int) * (h as int) * 3) by (nonlinear_arith);
    }
    rgb_png_encode(w as u32, h as u32, bytes)
}

/// Encode a grayscale canvas as a PNG byte stream.
pub fn encode_gray_png(c: &Canvas<u8>) -> (r: Option<Vec<u8>>)
    requires
        c.wf(),
    ensures
        r is Some ==> r.unwrap()@ == gray_png_bytes(
            c.spec_width(),
            c.spec_height(),
            spec_gray_bytes(c),
        ),
        c.spec_width() > 0 && c.spec_height() > 0 ==> r is Some,
{
    let bytes = canvas_gray_bytes(c);
    let w = c.width();
    let h = c.height();
    gray_png_encode(w as u32, h as u32, bytes)
}

} // verus!
