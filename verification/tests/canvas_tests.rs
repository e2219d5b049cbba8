use panel_render::canvas::Canvas;
use panel_render::color::{blend_colors, Rgb};
use panel_render::glyphs::get_char_bitmap;
use panel_render::quantize::quantize;

fn rgb(r: u8, g: u8, b: u8) -> Rgb {
    Rgb { r, g, b }
}

#[test]
fn out_of_bounds_set_pixel_is_a_no_op() {
    let bg = rgb(1, 2, 3);
    let mut c: Canvas<Rgb> = Canvas::new(10, 10, bg);
    c.set_pixel(10, 5, rgb(9, 9, 9));
    c.set_pixel(5, 10, rgb(9, 9, 9));
    c.set_pixel(usize::MAX, usize::MAX, rgb(9, 9, 9));
    for y in 0..10 {
        for x in 0..10 {
            assert_eq!(c.get_pixel(x, y), bg);
        }
    }
}

#[test]
fn fill_rect_clips_at_the_edges() {
    let bg = rgb(0, 0, 0);
    let paint = rgb(7, 7, 7);
    let mut c: Canvas<Rgb> = Canvas::new(10, 10, bg);
    c.fill_rect(5, 5, 100, 100, paint);
    for y in 0..10 {
        for x in 0..10 {
            let expect = if x >= 5 && y >= 5 { paint } else { bg };
            assert_eq!(c.get_pixel(x, y), expect);
        }
    }
    // A rectangle entirely outside the canvas changes nothing.
    let mut c2: Canvas<Rgb> = Canvas::new(10, 10, bg);
    c2.fill_rect(20, 20, 30, 30, paint);
    for y in 0..10 {
        for x in 0..10 {
            assert_eq!(c2.get_pixel(x, y), bg);
        }
    }
}

#[test]
fn gradient_interpolates_by_row() {
    let c1 = rgb(100, 200, 0);
    let c2 = rgb(0, 100, 200);
    let mut c: Canvas<Rgb> = Canvas::new(4, 10, rgb(255, 255, 255));
    c.fill_gradient(0, 0, 4, 10, c1, c2);
    for y in 0..10u32 {
        let expect = blend_colors(c1, c2, y, 10);
        for x in 0..4 {
            assert_eq!(c.get_pixel(x, y as usize), expect);
        }
    }
    assert_eq!(c.get_pixel(0, 0), c1);
}

#[test]
fn blend_truncates_toward_zero() {
    // (80 * 35 + 60 * 2) / 37 = 78 for the red channel, and so on.
    let got = blend_colors(rgb(80, 180, 80), rgb(60, 160, 60), 2, 37);
    assert_eq!(got, rgb(78, 178, 78));
    assert_eq!(blend_colors(rgb(0, 0, 0), rgb(255, 255, 255), 0, 5), rgb(0, 0, 0));
    assert_eq!(blend_colors(rgb(0, 0, 0), rgb(255, 255, 255), 5, 5), rgb(255, 255, 255));
}

#[test]
fn stroke_rect_draws_concentric_border() {
    let bg = rgb(0, 0, 0);
    let paint = rgb(5, 5, 5);
    let mut c: Canvas<Rgb> = Canvas::new(10, 10, bg);
    c.stroke_rect(0, 0, 10, 10, 3, paint);
    for y in 0..10 {
        for x in 0..10 {
            let border = x < 3 || x >= 7 || y < 3 || y >= 7;
            let expect = if border { paint } else { bg };
            assert_eq!(c.get_pixel(x, y), expect);
        }
    }
}

#[test]
fn disc_paints_ring_and_fill() {
    let bg = rgb(0, 0, 0);
    let fill = rgb(1, 1, 1);
    let ring = rgb(2, 2, 2);
    let mut c: Canvas<Rgb> = Canvas::new(20, 20, bg);
    c.fill_disc(10, 10, 5, 3, fill, ring);
    assert_eq!(c.get_pixel(10, 10), fill);
    // Distance 4 from the center: outside inner (3), inside outer (5).
    assert_eq!(c.get_pixel(14, 10), ring);
    // Distance just beyond the outer radius.
    assert_eq!(c.get_pixel(10, 16), bg);
    // Corner of the bounding square: dist^2 = 32 > 25, untouched.
    assert_eq!(c.get_pixel(6, 6), bg);
}

#[test]
fn glyph_drawing_matches_the_font_table() {
    let bg = rgb(255, 255, 255);
    let ink = rgb(0, 0, 0);
    let mut c: Canvas<Rgb> = Canvas::new(20, 20, bg);
    c.draw_text(0, 0, "A", ink, 1, 50);
    let bitmap = get_char_bitmap('A');
    for row in 0..8 {
        for col in 0..6 {
            let lit = bitmap[row] & (1 << (5 - col)) != 0;
            let expect = if lit { ink } else { bg };
            assert_eq!(c.get_pixel(col, row), expect, "row {row} col {col}");
        }
    }
    // The placeholder glyph is used for unsupported characters.
    assert_eq!(get_char_bitmap('\u{e9}'), get_char_bitmap('\u{7f}'));
    assert_ne!(get_char_bitmap('A'), get_char_bitmap('B'));
}

#[test]
fn scaled_text_replicates_pixels() {
    let bg = rgb(255, 255, 255);
    let ink = rgb(0, 0, 0);
    let mut c: Canvas<Rgb> = Canvas::new(40, 40, bg);
    c.draw_text(0, 0, "T", ink, 2, 50);
    let bitmap = get_char_bitmap('T');
    for row in 0..8usize {
        for col in 0..6usize {
            let lit = bitmap[row] & (1 << (5 - col)) != 0;
            let expect = if lit { ink } else { bg };
            for sy in 0..2 {
                for sx in 0..2 {
                    assert_eq!(c.get_pixel(col * 2 + sx, row * 2 + sy), expect);
                }
            }
        }
    }
}

#[test]
fn text_stops_at_the_canvas_edge() {
    let bg = rgb(255, 255, 255);
    let ink = rgb(0, 0, 0);
    // Only two 7px cells fit a 20px-wide canvas; the third character is
    // dropped entirely rather than clipped.
    let mut c: Canvas<Rgb> = Canvas::new(20, 20, bg);
    c.draw_text(0, 0, "HHH", ink, 1, 50);
    let bitmap = get_char_bitmap('H');
    for row in 0..8 {
        for col in 0..6 {
            let lit = bitmap[row] & (1 << (5 - col)) != 0;
            let expect = if lit { ink } else { bg };
            assert_eq!(c.get_pixel(col, row), expect);
            assert_eq!(c.get_pixel(7 + col, row), expect);
        }
        for x in 14..20 {
            assert_eq!(c.get_pixel(x, row), bg);
        }
    }
}

#[test]
fn quantize_thresholds_every_pixel() {
    let mut c: Canvas<u8> = Canvas::new(4, 1, 255);
    c.set_pixel(0, 0, 0);
    c.set_pixel(1, 0, 128);
    c.set_pixel(2, 0, 129);
    let q = quantize(&c, 128);
    assert_eq!(q.get_pixel(0, 0), 0);
    assert_eq!(q.get_pixel(1, 0), 0);
    assert_eq!(q.get_pixel(2, 0), 255);
    assert_eq!(q.get_pixel(3, 0), 255);
}

#[test]
fn quantize_is_idempotent_on_quantized_canvases() {
    let mut c: Canvas<u8> = Canvas::new(8, 8, 200);
    for x in 0..8 {
        c.set_pixel(x, x, 17);
    }
    for t in [1u8, 73, 128, 254] {
        let once = quantize(&c, t);
        let twice = quantize(&once, t);
        for y in 0..8 {
            for x in 0..8 {
                let p = once.get_pixel(x, y);
                assert!(p == 0 || p == 255);
                assert_eq!(twice.get_pixel(x, y), p);
            }
        }
    }
}
