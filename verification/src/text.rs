//! Text rasterization: integer-scaled glyph drawing onto a canvas.
//!
//! Characters advance by `7 * scale` pixels (6-wide glyph plus 1 spacing
//! column). Drawing stops at the first glyph that would not fit entirely
//! inside the canvas, and a caller-chosen character cap bounds the cost of
//! one call.

use vstd::prelude::*;

use crate::canvas::Canvas;
use crate::glyphs::{glyph_bit, glyph_rows};
use vstd::arithmetic::div_mod::{lemma_fundamental_div_mod, lemma_fundamental_div_mod_converse};

verus! {

/// The left edge of the glyph cell for character `k` of a text drawn at `x`.
pub open spec fn cell_start(x: int, s: int, k: int) -> int {
    x + k * (7 * s)
}

/// Whether a glyph for `c`, drawn at `(gx, gy)` with scale `s`, lights the
/// pixel `(i, j)`: the pixel lies in the 6s x 8s glyph box and its source
/// cell's font bit is set.
pub open spec fn glyph_px(c: char, gx: int, gy: int, s: int, i: int, j: int) -> bool {
    &&& gx <= i < gx + 6 * s
    &&& gy <= j < gy + 8 * s
    &&& glyph_bit(c, (j - gy) / s, (i - gx) / s)
}

/// Whether a text drawn at `(x, y)` with scale `s` and character cap
/// `limit` on a `w x h` canvas lights the pixel `(i, j)`.
pub open spec fn text_px(
    text: Seq<char>,
    x: int,
    y: int,
    s: int,
    limit: int,
    w: int,
    h: int,
    i: int,
    j: int,
) -> bool {
    let k = (i - x) / (7 * s);
    &&& x <= i
    &&& 0 <= k < text.len()
    &&& k < limit
    &&& cell_start(x, s, k) + 6 * s < w
    &&& y + 8 * s < h
    &&& glyph_px(text[k], cell_start(x, s, k), y, s, i, j)
}

/// For a coordinate inside block `q` of size `s` starting at base `b`,
/// division recovers the block number.
proof fn lemma_block_div(b: int, s: int, q: int, i: int)
    requires
        s >= 1,
        b + q * s <= i < b + q * s + s,
    ensures
        (i - b) / s == q,
{
    lemma_fundamental_div_mod_converse(i - b, s, q, i - b - q * s);
}

/// A coordinate in `[b, b + n*s)` falls in one of the `n` blocks of size `s`.
proof fn lemma_block_range(b: int, s: int, n: int, i: int)
    requires
        s >= 1,
        n >= 0,
        b <= i < b + n * s,
    ensures
        0 <= (i - b) / s < n,
        b + ((i - b) / s) * s <= i < b + ((i - b) / s) * s + s,
{
    let q = (i - b) / s;
    let r = (i - b) % s;
    lemma_fundamental_div_mod(i - b, s);
    assert(0 <= r < s);
    assert(0 <= q && q < n && q * s <= i - b && i - b < q * s + s) by (nonlinear_arith)
        requires
            s >= 1,
            0 <= i - b < n * s,
            i - b == s * q + r,
            0 <= r < s,
    ;
}

impl<P: Copy> Canvas<P> {
    /// Draw one glyph with its top-left corner at `(gx, gy)`, expanded by
    /// pixel replication to `scale`, clipped to the canvas.
    pub fn draw_glyph(&mut self, gx: usize, gy: usize, c: char, color: P, scale: usize)
        requires
            old(self).wf(),
            1 <= scale <= 100,
            gx <= 200_000,
            gy <= 200_000,
        ensures
            final(self).wf(),
            final(self).same_size(old(self)),
            forall|i: int, j: int|
                old(self).in_bounds(i, j) ==> final(self).px(i, j) == (if glyph_px(
                    c,
                    gx as int,
                    gy as int,
                    scale as int,
                    i,
                    j,
                ) {
                    color
                } else {
                    old(self).px(i, j)
                }),
    {
        let bitmap: [u8; 8] = crate::glyphs::get_char_bitmap(c);
        let ghost gxi = gx as int;
        let ghost gyi = gy as int;
        let ghost s = scale as int;
        let mut row: usize = 0;
        while row < 8
            invariant
                old(self).wf(),
                self.wf(),
                self.same_size(old(self)),
                row <= 8,
                1 <= scale <= 100,
                gx <= 200_000,
                gy <= 200_000,
                gxi == gx as int,
                gyi == gy as int,
                s == scale as int,
                bitmap@ =~= glyph_rows(c),
                forall|i: int, j: int|
                    old(self).in_bounds(i, j) ==> self.px(i, j) == (if glyph_px(
                        c,
                        gxi,
                        gyi,
                        s,
                        i,
                        j,
                    ) && (j - gyi) / s < row {
                        color
                    } else {
                        old(self).px(i, j)
                    }),
            decreases 8 - row,
        {
            let mut col: usize = 0;
            while col < 6
                invariant
                    old(self).wf(),
                    self.wf(),
                    self.same_size(old(self)),
                    row < 8,
                    col <= 6,
                    1 <= scale <= 100,
                    gx <= 200_000,
                    gy <= 200_000,
                    gxi == gx as int,
                    gyi == gy as int,
                    s == scale as int,
                    bitmap@ =~= glyph_rows(c),
                    forall|i: int, j: int|
                        old(self).in_bounds(i, j) ==> self.px(i, j) == (if glyph_px(
                            c,
                            gxi,
                            gyi,
                            s,
                            i,
                            j,
                        ) && ((j - gyi) / s < row || ((j - gyi) / s == row && (i - gxi) / s
                            < col)) {
                            color
                        } else {
                            old(self).px(i, j)
                        }),
                decreases 6 - col,
            {
                assert(col * scale + scale <= 6 * scale && row * scale + scale <= 8 * scale && col
                    * scale >= 0 && row * scale >= 0) by (nonlinear_arith)
                    requires
                        0 <= col < 6,
                        0 <= row < 8,
                        1 <= scale,
                ;
                let bx: usize = gx + col * scale;
                let by: usize = gy + row * scale;
                let ghost prev = *self;
                if bitmap[row] & (1u8 << (5 - col) as u8) != 0 {
                    self.fill_rect(bx, by, bx + scale, by + scale, color);
                }
                proof {
                    assert forall|i: int, j: int| old(self).in_bounds(i, j) implies self.px(i, j)
                        == (if glyph_px(c, gxi, gyi, s, i, j) && ((j - gyi) / s < row || ((j - gyi)
                        / s == row && (i - gxi) / s < col + 1)) {
                        color
                    } else {
                        old(self).px(i, j)
                    }) by {
                        if gxi + col * s <= i < gxi + col * s + s && gyi + row * s <= j < gyi + row
                            * s + s {
                            lemma_block_div(gxi, s, col as int, i);
                            lemma_block_div(gyi, s, row as int, j);
                            assert(col * s <= 5 * s && row * s <= 7 * s) by (nonlinear_arith)
                                requires
                                    0 <= col <= 5,
                                    0 <= row <= 7,
                                    s >= 1,
                            ;
                        } else {
                            assert(!(in_this_block(gxi, s, col as int, i) && in_this_block(
                                gyi,
                                s,
                                row as int,
                                j,
                            )));
                            if glyph_px(c, gxi, gyi, s, i, j) && (j - gyi) / s == row && (i - gxi)
                                / s == col {
                                lemma_block_range(gxi, s, 6, i);
                                lemma_block_range(gyi, s, 8, j);
                            }
                        }
                    }
                }
                col = col + 1;
            }
            proof {
                assert forall|i: int, j: int| old(self).in_bounds(i, j) implies self.px(i, j) == (
                if glyph_px(c, gxi, gyi, s, i, j) && (j - gyi) / s < row + 1 {
                    color
                } else {
                    old(self).px(i, j)
                }) by {
                    if glyph_px(c, gxi, gyi, s, i, j) {
                        lemma_block_range(gxi, s, 6, i);
                    }
                }
            }
            row = row + 1;
        }
        proof {
            assert forall|i: int, j: int| old(self).in_bounds(i, j) implies self.px(i, j) == (if
                glyph_px(c, gxi, gyi, s, i, j) {
                color
            } else {
                old(self).px(i, j)
            }) by {
                if glyph_px(c, gxi, gyi, s, i, j) {
                    lemma_block_range(gyi, s, 8, j);
                }
            }
        }
    }
}

pub open spec fn in_this_block(b: int, s: int, q: int, i: int) -> bool {
    b + q * s <= i < b + q * s + s
}

/// Pixels lit by the first `kmax` characters of a text, regardless of the
/// canvas edge checks.
pub open spec fn text_px_upto(
    text: Seq<char>,
    x: int,
    y: int,
    s: int,
    kmax: int,
    i: int,
    j: int,
) -> bool {
    let k = (i - x) / (7 * s);
    &&& x <= i
    &&& 0 <= k < kmax
    &&& glyph_px(text[k], cell_start(x, s, k), y, s, i, j)
}

impl<P: Copy> Canvas<P> {
    /// Draw `text` left to right starting at `(x, y)`, each glyph expanded
    /// by `scale`. Stops early (no wrap) at the first glyph that would
    /// cross the canvas edge, and draws at most `limit` characters.
    pub fn draw_text(
        &mut self,
        x: usize,
        y: usize,
        text: &str,
        color: P,
        scale: usize,
        limit: usize,
    )
        requires
            old(self).wf(),
            1 <= scale <= 100,
            x <= 100_000,
            y <= 100_000,
            limit <= 100,
        ensures
            final(self).wf(),
            final(self).same_size(old(self)),
            forall|i: int, j: int|
                old(self).in_bounds(i, j) ==> final(self).px(i, j) == (if text_px(
                    text@,
                    x as int,
                    y as int,
                    scale as int,
                    limit as int,
                    old(self).spec_width(),
                    old(self).spec_height(),
                    i,
                    j,
                ) {
                    color
                } else {
                    old(self).px(i, j)
                }),
    {
        let ghost xi = x as int;
        let ghost yi = y as int;
        let ghost s = scale as int;
        let w = self.width();
        let h = self.height();
        if y + 8 * scale >= h {
            return ;
        }
        let n = text.unicode_len();
        let stride: usize = 7 * scale;
        let mut k: usize = 0;
        let mut cx: usize = x;
        while k < n && k < limit
            invariant
                old(self).wf(),
                self.wf(),
                self.same_size(old(self)),
                w == self.spec_width(),
                h == self.spec_height(),
                1 <= scale <= 100,
                x <= 100_000,
                y <= 100_000,
                limit <= 100,
                xi == x as int,
                yi == y as int,
                s == scale as int,
                n == text@.len(),
                stride == 7 * scale,
                k <= limit,
                k <= n,
                cx as int == cell_start(xi, s, k as int),
                yi + 8 * s < h,
                forall|k2: int| 0 <= k2 < k ==> cell_start(xi, s, k2) + 6 * s < w,
                forall|i: int, j: int|
                    old(self).in_bounds(i, j) ==> self.px(i, j) == (if text_px_upto(
                        text@,
                        xi,
                        yi,
                        s,
                        k as int,
                        i,
                        j,
                    ) {
                        color
                    } else {
                        old(self).px(i, j)
                    }),
            decreases n - k,
        {
            assert(cx as int == xi + (k as int) * (7 * s) && (k as int) * (7 * s) <= 100 * (7
                * 100) && (k as int) * (7 * s) >= 0) by (nonlinear_arith)
                requires
                    cx as int == cell_start(xi, s, k as int),
                    0 <= k <= 100,
                    1 <= s <= 100,
                    xi >= 0,
            ;
            if cx + 6 * scale >= w {
                proof {
                    assert forall|i: int, j: int| old(self).in_bounds(i, j) implies self.px(i, j)
                        == (if text_px(text@, xi, yi, s, limit as int, w as int, h as int, i, j) {
                        color
                    } else {
                        old(self).px(i, j)
                    }) by {
                        let kc = (i - xi) / (7 * s);
                        if text_px(text@, xi, yi, s, limit as int, w as int, h as int, i, j) {
                            assert(cell_start(xi, s, kc) + 6 * s < w);
                            assert(kc < k) by (nonlinear_arith)
                                requires
                                    s >= 1,
                                    cell_start(xi, s, kc) == xi + kc * (7 * s),
                                    cell_start(xi, s, k as int) == xi + (k as int) * (7 * s),
                                    cell_start(xi, s, kc) + 6 * s < w,
                                    cell_start(xi, s, k as int) + 6 * s >= w,
                            ;
                        }
                    }
                }
                return ;
            }
            let c = text.get_char(k);
            let ghost prev = *self;
            self.draw_glyph(cx, y, c, color, scale);
            proof {
                assert forall|i: int, j: int| old(self).in_bounds(i, j) implies self.px(i, j) == (
                if text_px_upto(text@, xi, yi, s, k as int + 1, i, j) {
                    color
                } else {
                    old(self).px(i, j)
                }) by {
                    if glyph_px(c, cx as int, yi, s, i, j) {
                        assert(6 * s < 7 * s);
                        lemma_block_div(xi, 7 * s, k as int, i);
                    } else {
                        assert(self.px(i, j) == prev.px(i, j));
                        if text_px_upto(text@, xi, yi, s, k as int + 1, i, j) {
                            let kc = (i - xi) / (7 * s);
                            assert(kc < k as int + 1);
                            if kc == k as int {
                                assert(glyph_px(text@[kc], cell_start(xi, s, kc), yi, s, i, j));
                                assert(false);
                            }
                        }
                    }
                }
            }
            k = k + 1;
            cx = cx + stride;
            proof {
                assert(cell_start(xi, s, k as int) == cell_start(xi, s, k as int - 1) + 7 * s)
                    by (nonlinear_arith)
                    requires
                        s >= 1,
                        cell_start(xi, s, k as int) == xi + (k as int) * (7 * s),
                        cell_start(xi, s, k as int - 1) == xi + (k as int - 1) * (7 * s),
                ;
            }
        }
        proof {
            assert forall|i: int, j: int| old(self).in_bounds(i, j) implies self.px(i, j) == (if
                text_px(text@, xi, yi, s, limit as int, w as int, h as int, i, j) {
                color
            } else {
                old(self).px(i, j)
            }) by {
                let kc = (i - xi) / (7 * s);
                if text_px(text@, xi, yi, s, limit as int, w as int, h as int, i, j) {
                    assert(kc < k);
                }
            }
        }
    }
}

} // verus!
