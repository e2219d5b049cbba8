//! An owned 2-D pixel buffer with bounds-checked drawing primitives.
//!
//! All primitives clip silently: a coordinate outside the canvas is skipped,
//! never written. The pixel type is generic so the same canvas serves both
//! the RGB card/panel targets and the single-channel e-paper target.

use vstd::prelude::*;

use crate::color::{spec_blend, blend_colors, Rgb};

verus! {

/// Largest accepted canvas dimension; keeps all index arithmetic
/// comfortably inside `usize`.
pub const MAX_DIM: usize = 10000;

pub open spec fn in_rect(x0: int, y0: int, x1: int, y1: int, i: int, j: int) -> bool {
    x0 <= i < x1 && y0 <= j < y1
}

/// Pixels of `[x0, x1) x [y0, y1)` within `t` of one of its edges: the
/// `t` concentric border lines drawn by `stroke_rect`.
pub open spec fn on_border(x0: int, y0: int, x1: int, y1: int, t: int, i: int, j: int) -> bool {
    in_rect(x0, y0, x1, y1, i, j) && (i - x0 < t || x1 - i <= t || j - y0 < t || y1 - j <= t)
}

/// Squared distance between `(i, j)` and `(cx, cy)`.
pub open spec fn dist2(cx: int, cy: int, i: int, j: int) -> int {
    (i - cx) * (i - cx) + (j - cy) * (j - cy)
}

proof fn lemma_rm_index(w: int, h: int, x: int, y: int)
    requires
        0 <= x < w,
        0 <= y < h,
    ensures
        0 <= y * w + x < w * h,
{
    assert(0 <= y * w + x && y * w + x < w * h) by (nonlinear_arith)
        requires
            0 <= x < w,
            0 <= y < h,
    ;
}

proof fn lemma_rm_inj(w: int, x1: int, y1: int, x2: int, y2: int)
    requires
        0 <= x1 < w,
        0 <= x2 < w,
        0 <= y1,
        0 <= y2,
        y1 * w + x1 == y2 * w + x2,
    ensures
        x1 == x2,
        y1 == y2,
{
    assert(x1 == x2 && y1 == y2) by (nonlinear_arith)
        requires
            0 <= x1 < w,
            0 <= x2 < w,
            0 <= y1,
            0 <= y2,
            y1 * w + x1 == y2 * w + x2,
    ;
}

/// An owned pixel buffer in row-major order.
pub struct Canvas<P> {
    width: usize,
    height: usize,
    pixels: Vec<P>,
}

impl<P: Copy> Canvas<P> {
    pub closed spec fn spec_width(&self) -> int {
        self.width as int
    }

    pub closed spec fn spec_height(&self) -> int {
        self.height as int
    }

    /// The pixel at column `x`, row `y`.
    pub closed spec fn px(&self, x: int, y: int) -> P {
        self.pixels@[y * self.spec_width() + x]
    }

    /// The backing buffer holds exactly one entry per coordinate.
    pub closed spec fn buffer_ok(&self) -> bool {
        self.pixels@.len() == self.width * self.height
    }

    /// Well-formed: every coordinate of the stated size has exactly one
    /// backing buffer entry, and the size is within the supported range.
    pub open spec fn wf(&self) -> bool {
        &&& self.buffer_ok()
        &&& self.spec_width() <= MAX_DIM as int
        &&& self.spec_height() <= MAX_DIM as int
        &&& self.spec_width() * self.spec_height() <= 100_000_000
    }

    pub open spec fn in_bounds(&self, x: int, y: int) -> bool {
        0 <= x < self.spec_width() && 0 <= y < self.spec_height()
    }

    /// Dimensions unchanged by a drawing call.
    pub open spec fn same_size(&self, other: &Self) -> bool {
        self.spec_width() == other.spec_width() && self.spec_height() == other.spec_height()
    }

    pub fn new(width: usize, height: usize, background: P) -> (c: Canvas<P>)
        requires
            width <= MAX_DIM,
            height <= MAX_DIM,
        ensures
            c.wf(),
            c.spec_width() == width,
            c.spec_height() == height,
            forall|i: int, j: int| c.in_bounds(i, j) ==> c.px(i, j) == background,
    {
        assert(width * height <= 100_000_000) by (nonlinear_arith)
            requires
                width <= 10000,
                height <= 10000,
        ;
        let n: usize = width * height;
        let mut pixels: Vec<P> = Vec::new();
        while pixels.len() < n
            invariant
                pixels@.len() <= n,
                forall|k: int| 0 <= k < pixels@.len() ==> pixels@[k] == background,
            decreases n - pixels@.len(),
        {
            pixels.push(background);
        }
        let c = Canvas { width, height, pixels };
        proof {
            assert forall|i: int, j: int| c.in_bounds(i, j) implies c.px(i, j) == background by {
                lemma_rm_index(width as int, height as int, i, j);
            }
        }
        c
    }

    pub fn width(&self) -> (w: usize)
        ensures
            w == self.spec_width(),
    {
        self.width
    }

    pub fn height(&self) -> (h: usize)
        ensures
            h == self.spec_height(),
    {
        self.height
    }

    /// Read one pixel.
    pub fn get_pixel(&self, x: usize, y: usize) -> (p: P)
        requires
            self.wf(),
            self.in_bounds(x as int, y as int),
        ensures
            p == self.px(x as int, y as int),
    {
        proof {
            lemma_rm_index(self.spec_width(), self.spec_height(), x as int, y as int);
        }
        self.pixels[y * self.width + x]
    }

    /// Write one pixel; a no-op when the coordinate is out of bounds.
    pub fn set_pixel(&mut self, x: usize, y: usize, color: P)
        requires
            old(self).wf(),
        ensures
            final(self).wf(),
            final(self).same_size(old(self)),
            forall|i: int, j: int|
                old(self).in_bounds(i, j) ==> final(self).px(i, j) == (if i == x as int && j
                    == y as int {
                    color
                } else {
                    old(self).px(i, j)
                }),
    {
        if x < self.width && y < self.height {
            proof {
                lemma_rm_index(self.spec_width(), self.spec_height(), x as int, y as int);
            }
            let idx: usize = y * self.width + x;
            self.pixels.set(idx, color);
            proof {
                let w = self.spec_width();
                let h = self.spec_height();
                assert forall|i: int, j: int| old(self).in_bounds(i, j) implies self.px(i, j) == (
                if i == x as int && j == y as int {
                    color
                } else {
                    old(self).px(i, j)
                }) by {
                    lemma_rm_index(w, h, i, j);
                    if j * w + i == idx {
                        lemma_rm_inj(w, i, j, x as int, y as int);
                    }
                }
            }
        }
    }

    /// Fill the in-bounds part of one row segment `[x0, x1)` at row `y`.
    pub fn fill_row(&mut self, y: usize, x0: usize, x1: usize, color: P)
        requires
            old(self).wf(),
        ensures
            final(self).wf(),
            final(self).same_size(old(self)),
            forall|i: int, j: int|
                old(self).in_bounds(i, j) ==> final(self).px(i, j) == (if j == y as int && x0
                    <= i < x1 {
                    color
                } else {
                    old(self).px(i, j)
                }),
    {
        if y >= self.height {
            return ;
        }
        let xe: usize = if x1 < self.width {
            x1
        } else {
            self.width
        };
        let mut x: usize = x0;
        while x < xe
            invariant
                old(self).wf(),
                self.wf(),
                self.same_size(old(self)),
                x0 <= x,
                x <= xe || x == x0,
                xe as int == if x1 as int <= self.spec_width() {
                    x1 as int
                } else {
                    self.spec_width()
                },
                y < self.spec_height(),
                forall|i: int, j: int|
                    old(self).in_bounds(i, j) ==> self.px(i, j) == (if j == y as int && x0 <= i
                        < x {
                        color
                    } else {
                        old(self).px(i, j)
                    }),
            decreases xe - x,
        {
            self.set_pixel(x, y, color);
            x = x + 1;
        }
        proof {
            assert forall|i: int, j: int| old(self).in_bounds(i, j) implies self.px(i, j) == (if j
                == y as int && x0 <= i < x1 {
                color
            } else {
                old(self).px(i, j)
            }) by {
                assert(self.px(i, j) == (if j == y as int && x0 <= i < x as int {
                    color
                } else {
                    old(self).px(i, j)
                }));
            }
        }
    }

    /// Fill the rectangle `[x0, x1) x [y0, y1)`, clipped to the canvas.
    pub fn fill_rect(&mut self, x0: usize, y0: usize, x1: usize, y1: usize, color: P)
        requires
            old(self).wf(),
        ensures
            final(self).wf(),
            final(self).same_size(old(self)),
            forall|i: int, j: int|
                old(self).in_bounds(i, j) ==> final(self).px(i, j) == (if in_rect(
                    x0 as int,
                    y0 as int,
                    x1 as int,
                    y1 as int,
                    i,
                    j,
                ) {
                    color
                } else {
                    old(self).px(i, j)
                }),
    {
        let ye: usize = if y1 < self.height {
            y1
        } else {
            self.height
        };
        let mut y: usize = y0;
        while y < ye
            invariant
                old(self).wf(),
                self.wf(),
                self.same_size(old(self)),
                y0 <= y,
                y <= ye || y == y0,
                ye as int == if y1 as int <= self.spec_height() {
                    y1 as int
                } else {
                    self.spec_height()
                },
                forall|i: int, j: int|
                    old(self).in_bounds(i, j) ==> self.px(i, j) == (if x0 <= i < x1 && y0 <= j
                        < y {
                        color
                    } else {
                        old(self).px(i, j)
                    }),
            decreases ye - y,
        {
            self.fill_row(y, x0, x1, color);
            y = y + 1;
        }
        proof {
            assert forall|i: int, j: int| old(self).in_bounds(i, j) implies self.px(i, j) == (if
                in_rect(x0 as int, y0 as int, x1 as int, y1 as int, i, j) {
                color
            } else {
                old(self).px(i, j)
            }) by {
                assert(self.px(i, j) == (if x0 <= i < x1 && y0 <= j < y as int {
                    color
                } else {
                    old(self).px(i, j)
                }));
            }
        }
    }

    /// Draw `t` concentric one-pixel border lines inset from the edges of
    /// `[x0, x1) x [y0, y1)`, clipped to the canvas. Degenerate rectangles
    /// (smaller than twice the thickness) come out fully filled.
    pub fn stroke_rect(&mut self, x0: usize, y0: usize, x1: usize, y1: usize, t: usize, color: P)
        requires
            old(self).wf(),
            x0 <= 100_000,
            y0 <= 100_000,
            x1 <= 100_000,
            y1 <= 100_000,
            t <= 100_000,
        ensures
            final(self).wf(),
            final(self).same_size(old(self)),
            forall|i: int, j: int|
                old(self).in_bounds(i, j) ==> final(self).px(i, j) == (if on_border(
                    x0 as int,
                    y0 as int,
                    x1 as int,
                    y1 as int,
                    t as int,
                    i,
                    j,
                ) {
                    color
                } else {
                    old(self).px(i, j)
                }),
    {
        let top_end: usize = if y0 + t <= y1 {
            y0 + t
        } else {
            y1
        };
        let bot_start: usize = if y1 >= t && y1 - t >= y0 {
            y1 - t
        } else {
            y0
        };
        let left_end: usize = if x0 + t <= x1 {
            x0 + t
        } else {
            x1
        };
        let right_start: usize = if x1 >= t && x1 - t >= x0 {
            x1 - t
        } else {
            x0
        };
        let ghost s0 = *self;
        self.fill_rect(x0, y0, x1, top_end, color);
        let ghost s1 = *self;
        self.fill_rect(x0, bot_start, x1, y1, color);
        let ghost s2 = *self;
        self.fill_rect(x0, y0, left_end, y1, color);
        let ghost s3 = *self;
        self.fill_rect(right_start, y0, x1, y1, color);
        proof {
            assert forall|i: int, j: int| old(self).in_bounds(i, j) implies self.px(i, j) == (if
                on_border(x0 as int, y0 as int, x1 as int, y1 as int, t as int, i, j) {
                color
            } else {
                old(self).px(i, j)
            }) by {
                assert(s1.px(i, j) == (if in_rect(x0 as int, y0 as int, x1 as int, top_end as int, i, j) {
                    color
                } else {
                    s0.px(i, j)
                }));
                assert(s2.px(i, j) == (if in_rect(x0 as int, bot_start as int, x1 as int, y1 as int, i, j) {
                    color
                } else {
                    s1.px(i, j)
                }));
                assert(s3.px(i, j) == (if in_rect(x0 as int, y0 as int, left_end as int, y1 as int, i, j) {
                    color
                } else {
                    s2.px(i, j)
                }));
                assert(self.px(i, j) == (if in_rect(right_start as int, y0 as int, x1 as int, y1 as int, i, j) {
                    color
                } else {
                    s3.px(i, j)
                }));
            }
        }
    }

    /// The color a disc paints at a hit pixel: the fill inside the inner
    /// radius, the ring color between inner and outer.
    pub open spec fn disc_color(
        cx: int,
        cy: int,
        inner: int,
        fill: P,
        ring: P,
        i: int,
        j: int,
    ) -> P {
        if dist2(cx, cy, i, j) <= inner * inner {
            fill
        } else {
            ring
        }
    }

    /// A pixel of the bounding square actually covered by the disc.
    pub open spec fn disc_hit(cx: int, cy: int, outer: int, i: int, j: int) -> bool {
        &&& cx - outer <= i < cx + outer
        &&& cy - outer <= j < cy + outer
        &&& dist2(cx, cy, i, j) <= outer * outer
    }

    /// Filled disc with a ring: every pixel of the bounding square whose
    /// squared distance to the center is at most `outer^2` is painted,
    /// with `fill` inside `inner^2` and `ring` outside it.
    pub fn fill_disc(
        &mut self,
        cx: usize,
        cy: usize,
        outer: usize,
        inner: usize,
        fill: P,
        ring: P,
    )
        requires
            old(self).wf(),
            inner <= outer,
            cx <= 100_000,
            cy <= 100_000,
            outer <= 100_000,
        ensures
            final(self).wf(),
            final(self).same_size(old(self)),
            forall|i: int, j: int|
                old(self).in_bounds(i, j) ==> final(self).px(i, j) == (if Self::disc_hit(
                    cx as int,
                    cy as int,
                    outer as int,
                    i,
                    j,
                ) {
                    Self::disc_color(cx as int, cy as int, inner as int, fill, ring, i, j)
                } else {
                    old(self).px(i, j)
                }),
    {
        let x0: usize = if cx >= outer {
            cx - outer
        } else {
            0
        };
        let y0: usize = if cy >= outer {
            cy - outer
        } else {
            0
        };
        let x1: usize = cx + outer;
        let y1: usize = cy + outer;
        assert(outer * outer <= 100_000 * 100_000) by (nonlinear_arith)
            requires
                0 <= outer <= 100_000,
        ;
        assert(inner * inner <= 100_000 * 100_000) by (nonlinear_arith)
            requires
                0 <= inner <= 100_000,
        ;
        let outer_sq: i64 = (outer as i64) * (outer as i64);
        let inner_sq: i64 = (inner as i64) * (inner as i64);
        let mut j: usize = y0;
        while j < y1
            invariant
                old(self).wf(),
                self.wf(),
                self.same_size(old(self)),
                y0 <= j <= y1,
                x0 == if cx >= outer {
                    cx - outer
                } else {
                    0
                },
                y0 == if cy >= outer {
                    cy - outer
                } else {
                    0
                },
                x1 == cx + outer,
                y1 == cy + outer,
                cx <= 100_000,
                cy <= 100_000,
                outer <= 100_000,
                inner <= 100_000,
                outer_sq == outer * outer,
                inner_sq == inner * inner,
                forall|i2: int, j2: int|
                    old(self).in_bounds(i2, j2) ==> self.px(i2, j2) == (if Self::disc_hit(
                        cx as int,
                        cy as int,
                        outer as int,
                        i2,
                        j2,
                    ) && j2 < j {
                        Self::disc_color(cx as int, cy as int, inner as int, fill, ring, i2, j2)
                    } else {
                        old(self).px(i2, j2)
                    }),
            decreases y1 - j,
        {
            let mut i: usize = x0;
            while i < x1
                invariant
                    old(self).wf(),
                    self.wf(),
                    self.same_size(old(self)),
                    x0 <= i <= x1,
                    y0 <= j < y1,
                    x0 == if cx >= outer {
                        cx - outer
                    } else {
                        0
                    },
                    y0 == if cy >= outer {
                        cy - outer
                    } else {
                        0
                    },
                    x1 == cx + outer,
                    y1 == cy + outer,
                    cx <= 100_000,
                    cy <= 100_000,
                    outer <= 100_000,
                    inner <= 100_000,
                    outer_sq == outer * outer,
                    inner_sq == inner * inner,
                    forall|i2: int, j2: int|
                        old(self).in_bounds(i2, j2) ==> self.px(i2, j2) == (if Self::disc_hit(
                            cx as int,
                            cy as int,
                            outer as int,
                            i2,
                            j2,
                        ) && (j2 < j || (j2 == j && i2 < i)) {
                            Self::disc_color(cx as int, cy as int, inner as int, fill, ring, i2, j2)
                        } else {
                            old(self).px(i2, j2)
                        }),
                decreases x1 - i,
            {
                let dx: i64 = (i as i64) - (cx as i64);
                let dy: i64 = (j as i64) - (cy as i64);
                assert(dx * dx <= 100_000i64 * 100_000i64 && dx * dx >= 0) by (nonlinear_arith)
                    requires
                        -100_000 <= dx <= 100_000,
                ;
                assert(dy * dy <= 100_000i64 * 100_000i64 && dy * dy >= 0) by (nonlinear_arith)
                    requires
                        -100_000 <= dy <= 100_000,
                ;
                assert(outer_sq <= 100_000i64 * 100_000i64) by (nonlinear_arith)
                    requires
                        0 <= outer_sq == outer * outer,
                        outer <= 100_000,
                ;
                let d2: i64 = dx * dx + dy * dy;
                if d2 <= outer_sq {
                    if d2 <= inner_sq {
                        self.set_pixel(i, j, fill);
                    } else {
                        self.set_pixel(i, j, ring);
                    }
                }
                i = i + 1;
            }
            j = j + 1;
        }
    }
}

impl Canvas<Rgb> {
    /// Vertical linear gradient over `[x0, x1) x [y0, y1)`: row `j` gets the
    /// channel-wise interpolation of `c1` toward `c2` at `(j - y0) / (y1 - y0)`.
    pub fn fill_gradient(&mut self, x0: usize, y0: usize, x1: usize, y1: usize, c1: Rgb, c2: Rgb)
        requires
            old(self).wf(),
            y1 <= MAX_DIM,
        ensures
            final(self).wf(),
            final(self).same_size(old(self)),
            forall|i: int, j: int|
                old(self).in_bounds(i, j) ==> final(self).px(i, j) == (if in_rect(
                    x0 as int,
                    y0 as int,
                    x1 as int,
                    y1 as int,
                    i,
                    j,
                ) {
                    spec_blend(c1, c2, j - y0 as int, y1 - y0 as int)
                } else {
                    old(self).px(i, j)
                }),
    {
        if y1 <= y0 {
            return ;
        }
        let den: u32 = (y1 - y0) as u32;
        let mut y: usize = y0;
        while y < y1
            invariant
                old(self).wf(),
                self.wf(),
                self.same_size(old(self)),
                y0 <= y <= y1,
                y1 <= MAX_DIM,
                den == y1 - y0,
                0 < den,
                forall|i: int, j: int|
                    old(self).in_bounds(i, j) ==> self.px(i, j) == (if x0 <= i < x1 && y0 <= j
                        < y {
                        spec_blend(c1, c2, j - y0 as int, y1 - y0 as int)
                    } else {
                        old(self).px(i, j)
                    }),
            decreases y1 - y,
        {
            let row_color = blend_colors(c1, c2, (y - y0) as u32, den);
            self.fill_row(y, x0, x1, row_color);
            y = y + 1;
        }
        proof {
            assert forall|i: int, j: int| old(self).in_bounds(i, j) implies self.px(i, j) == (if
                in_rect(x0 as int, y0 as int, x1 as int, y1 as int, i, j) {
                spec_blend(c1, c2, j - y0 as int, y1 - y0 as int)
            } else {
                old(self).px(i, j)
            }) by {
                assert(self.px(i, j) == (if x0 <= i < x1 && y0 <= j < y as int {
                    spec_blend(c1, c2, j - y0 as int, y1 - y0 as int)
                } else {
                    old(self).px(i, j)
                }));
            }
        }
    }
}

} // verus!
