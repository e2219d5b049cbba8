//! The single-entity status card template: gradient background keyed by
//! the entity's color class, a 3px border, a header band with the display
//! name, a status band with the formatted status label and drop shadow, an
//! info band listing the id and a fixed set of attributes, and a circular
//! status indicator.

use vstd::prelude::*;

use crate::canvas::{in_rect, on_border, Canvas, MAX_DIM};
use crate::color::{
    background_gradient, classify_state, indicator_colors, spec_color_class, spec_indicator_colors,
    status_gradient, Rgb,
};
use crate::entity::{AttrValue, EntityRecord};
use crate::format::{format_entity_status, spec_format_status_line};
use crate::numfmt::render_plain;
use crate::png::{encode_canvas_png, rgb_png_bytes};
use crate::strutil::truncate_ellipsis;
use crate::text::text_px;

verus! {

/// Left edge of a one-scale text of `len` characters centered in a row of
/// width `w`, with the fixed fallback offset when it does not fit.
pub open spec fn spec_centered_x(len: int, w: int) -> int {
    if 20 <= w && len * 7 < w - 20 {
        (w - len * 7) / 2
    } else {
        15
    }
}

pub fn centered_text_x(len: usize, w: usize) -> (x: usize)
    requires
        w <= MAX_DIM,
    ensures
        x == spec_centered_x(len as int, w as int),
        x <= 100_000,
{
    if len > 1500 {
        assert(len * 7 >= w - 20) by (nonlinear_arith)
            requires
                len > 1500,
                w <= 10000,
        ;
        return 15;
    }
    let tw = len * 7;
    if w >= 20 && tw < w - 20 {
        (w - tw) / 2
    } else {
        15
    }
}

/// Saturating subtraction for clip-safe coordinate math.
pub fn sat_sub(a: usize, b: usize) -> (r: usize)
    ensures
        r == if a >= b {
            a - b
        } else {
            0
        },
{
    if a >= b {
        a - b
    } else {
        0
    }
}

/// The decorative 3px outer border of the card and panel templates.
pub fn draw_border(c: &mut Canvas<Rgb>)
    requires
        old(c).wf(),
    ensures
        final(c).wf(),
        final(c).same_size(old(c)),
        forall|i: int, j: int|
            old(c).in_bounds(i, j) ==> final(c).px(i, j) == (if crate::canvas::on_border(
                0,
                0,
                old(c).spec_width(),
                old(c).spec_height(),
                3,
                i,
                j,
            ) {
                (Rgb { r: 80, g: 80, b: 80 })
            } else {
                old(c).px(i, j)
            }),
{
    let w = c.width();
    let h = c.height();
    c.stroke_rect(0, 0, w, h, 3, Rgb { r: 80, g: 80, b: 80 });
}

/// What the card header paints at `(i, j)` on a `w x h` canvas, layered
/// top down: the centered white name text, the 1px border, the dark band
/// gradient; `None` where the band leaves the pixel alone.
pub open spec fn header_paint(name: Seq<char>, w: int, h: int, i: int, j: int) -> Option<Rgb> {
    let x = spec_centered_x(name.len() as int, w);
    if text_px(name, x, 20, 1, 50, w, h, i, j) {
        Some(Rgb { r: 255, g: 255, b: 255 })
    } else if on_border(8, 8, w - 8, 40, 1, i, j) {
        Some(Rgb { r: 100, g: 100, b: 120 })
    } else if in_rect(8, 8, w - 8, 40, i, j) {
        Some(
            crate::color::spec_blend(
                Rgb { r: 60, g: 60, b: 80 },
                Rgb { r: 40, g: 40, b: 60 },
                j - 8,
                32,
            ),
        )
    } else {
        None
    }
}

/// Header band: dark gradient rows 8..40, 1px border, centered name.
/// Exactly the pixels of `header_paint` change; rows outside the band are
/// untouched.
pub fn draw_header_section(c: &mut Canvas<Rgb>, name: &str)
    requires
        old(c).wf(),
    ensures
        final(c).wf(),
        final(c).same_size(old(c)),
        forall|i: int, j: int|
            old(c).in_bounds(i, j) && !(8 <= j < 40) ==> final(c).px(i, j) == old(c).px(i, j),
        forall|i: int, j: int|
            old(c).in_bounds(i, j) ==> final(c).px(i, j) == (match header_paint(
                name@,
                old(c).spec_width(),
                old(c).spec_height(),
                i,
                j,
            ) {
                Some(p) => p,
                None => old(c).px(i, j),
            }),
{
    let w = c.width();
    let right = sat_sub(w, 8);
    let ghost s0 = *c;
    c.fill_gradient(8, 8, right, 40, Rgb { r: 60, g: 60, b: 80 }, Rgb { r: 40, g: 40, b: 60 });
    let ghost s1 = *c;
    c.stroke_rect(8, 8, right, 40, 1, Rgb { r: 100, g: 100, b: 120 });
    let ghost s2 = *c;
    let x = centered_text_x(name.unicode_len(), w);
    c.draw_text(x, 20, name, Rgb { r: 255, g: 255, b: 255 }, 1, 50);
    proof {
        assert forall|i: int, j: int| old(c).in_bounds(i, j) implies c.px(i, j) == (match
            header_paint(name@, old(c).spec_width(), old(c).spec_height(), i, j) {
            Some(p) => p,
            None => old(c).px(i, j),
        }) by {
            assert(s1.px(i, j) == (if in_rect(8, 8, right as int, 40, i, j) {
                crate::color::spec_blend(
                    Rgb { r: 60, g: 60, b: 80 },
                    Rgb { r: 40, g: 40, b: 60 },
                    j - 8,
                    32,
                )
            } else {
                s0.px(i, j)
            }));
            assert(s2.px(i, j) == (if on_border(8, 8, right as int, 40, 1, i, j) {
                (Rgb { r: 100, g: 100, b: 120 })
            } else {
                s1.px(i, j)
            }));
        }
        assert forall|i: int, j: int| old(c).in_bounds(i, j) && !(8 <= j < 40) implies c.px(i, j)
            == old(c).px(i, j) by {
            assert(s1.px(i, j) == s0.px(i, j));
            assert(s2.px(i, j) == s1.px(i, j));
        }
    }
}

/// What the status band paints at `(i, j)`, layered top down: the white
/// label, its black drop shadow one pixel down-right, the 1px border, the
/// class-keyed gradient.
pub open spec fn status_paint(
    status: Seq<char>,
    class: crate::color::ColorClass,
    w: int,
    h: int,
    i: int,
    j: int,
) -> Option<Rgb> {
    let x = spec_centered_x(status.len() as int, w);
    let st = crate::color::spec_status_gradient(class);
    if text_px(status, x, 65, 1, 50, w, h, i, j) {
        Some(Rgb { r: 255, g: 255, b: 255 })
    } else if text_px(status, x + 1, 66, 1, 50, w, h, i, j) {
        Some(Rgb { r: 0, g: 0, b: 0 })
    } else if on_border(8, 48, w - 8, 85, 1, i, j) {
        Some(Rgb { r: 200, g: 200, b: 200 })
    } else if in_rect(8, 48, w - 8, 85, i, j) {
        Some(crate::color::spec_blend(st.0, st.1, j - 48, 37))
    } else {
        None
    }
}

/// Status band: gradient keyed by the color class, 1px border, centered
/// status label with a 1px drop shadow. Exactly the pixels of
/// `status_paint` change; rows outside the band are untouched.
pub fn draw_status_section(c: &mut Canvas<Rgb>, status: &str, class: crate::color::ColorClass)
    requires
        old(c).wf(),
    ensures
        final(c).wf(),
        final(c).same_size(old(c)),
        forall|i: int, j: int|
            old(c).in_bounds(i, j) && !(48 <= j < 85) ==> final(c).px(i, j) == old(c).px(i, j),
        forall|i: int, j: int|
            old(c).in_bounds(i, j) ==> final(c).px(i, j) == (match status_paint(
                status@,
                class,
                old(c).spec_width(),
                old(c).spec_height(),
                i,
                j,
            ) {
                Some(p) => p,
                None => old(c).px(i, j),
            }),
{
    let w = c.width();
    let right = sat_sub(w, 8);
    let (start, end) = status_gradient(class);
    let ghost s0 = *c;
    c.fill_gradient(8, 48, right, 85, start, end);
    let ghost s1 = *c;
    c.stroke_rect(8, 48, right, 85, 1, Rgb { r: 200, g: 200, b: 200 });
    let ghost s2 = *c;
    let x = centered_text_x(status.unicode_len(), w);
    c.draw_text(x + 1, 66, status, Rgb { r: 0, g: 0, b: 0 }, 1, 50);
    let ghost s3 = *c;
    c.draw_text(x, 65, status, Rgb { r: 255, g: 255, b: 255 }, 1, 50);
    proof {
        assert forall|i: int, j: int| old(c).in_bounds(i, j) implies c.px(i, j) == (match
            status_paint(status@, class, old(c).spec_width(), old(c).spec_height(), i, j) {
            Some(p) => p,
            None => old(c).px(i, j),
        }) by {
            assert(s1.px(i, j) == (if in_rect(8, 48, right as int, 85, i, j) {
                crate::color::spec_blend(start, end, j - 48, 37)
            } else {
                s0.px(i, j)
            }));
            assert(s2.px(i, j) == (if on_border(8, 48, right as int, 85, 1, i, j) {
                (Rgb { r: 200, g: 200, b: 200 })
            } else {
                s1.px(i, j)
            }));
        }
        assert forall|i: int, j: int| old(c).in_bounds(i, j) && !(48 <= j < 85) implies c.px(i, j)
            == old(c).px(i, j) by {
            assert(s1.px(i, j) == s0.px(i, j));
            assert(s2.px(i, j) == s1.px(i, j));
            assert(s3.px(i, j) == s2.px(i, j));
        }
    }
}

/// The display text of one info-band attribute line: `<label>: <value>`
/// for a string (truncated at 25 characters), numeric or boolean
/// attribute; nothing for an absent, null or nested one.
pub open spec fn spec_info_line(e: &EntityRecord, key: Seq<char>, label: Seq<char>) -> Option<
    Seq<char>,
> {
    match crate::entity::spec_attr(e.attributes@, key) {
        Some(AttrValue::Text(s)) => Some(label + ": "@ + crate::strutil::spec_truncate(s@, 25, 22)),
        Some(AttrValue::Num(n)) => Some(label + ": "@ + crate::numfmt::plain_chars(n)),
        Some(AttrValue::Bool(b)) => Some(
            label + ": "@ + (if b {
                "true"@
            } else {
                "false"@
            }),
        ),
        _ => None,
    }
}

/// Whether the attribute's line is drawn when the cursor stands at `y`:
/// the line exists, is at most 45 characters, and still fits the band.
pub open spec fn spec_info_drawn(
    e: &EntityRecord,
    key: Seq<char>,
    label: Seq<char>,
    y: int,
    h: int,
) -> bool {
    &&& y + 18 < h - 10
    &&& spec_info_line(e, key, label) is Some
    &&& spec_info_line(e, key, label).unwrap().len() <= 45
}

/// The cursor after the attribute's line: advanced by the 18px line
/// height exactly when the line was drawn.
pub open spec fn spec_info_ny(
    e: &EntityRecord,
    key: Seq<char>,
    label: Seq<char>,
    y: int,
    h: int,
) -> int {
    if spec_info_drawn(e, key, label, y, h) {
        y + 18
    } else {
        y
    }
}

/// One info line for an attribute: `<label>: <value>`, drawn at `y` when
/// the attribute is present, printable, and the line is short enough;
/// returns the `y` for the next line.
fn draw_info_attr(c: &mut Canvas<Rgb>, e: &EntityRecord, key: &str, label: &str, y: usize) -> (ny:
    usize)
    requires
        old(c).wf(),
        e.wf(),
        y <= 100_000,
    ensures
        final(c).wf(),
        final(c).same_size(old(c)),
        y <= ny <= y + 18,
        ny == spec_info_ny(e, key@, label@, y as int, old(c).spec_height()),
        forall|i: int, j: int|
            old(c).in_bounds(i, j) ==> final(c).px(i, j) == (if spec_info_drawn(
                e,
                key@,
                label@,
                y as int,
                old(c).spec_height(),
            ) && text_px(
                spec_info_line(e, key@, label@).unwrap(),
                15,
                y as int,
                1,
                50,
                old(c).spec_width(),
                old(c).spec_height(),
                i,
                j,
            ) {
                (Rgb { r: 70, g: 70, b: 70 })
            } else {
                old(c).px(i, j)
            }),
{
    let h = c.height();
    if y + 18 >= sat_sub(h, 10) {
        return y;
    }
    let value_text: Option<String> = match e.get_attr(key) {
        Some(AttrValue::Text(s)) => Some(truncate_ellipsis(s.as_str(), 25, 22)),
        Some(AttrValue::Num(n)) => {
            proof {
                crate::entity::lemma_spec_attr_found_wf(e.attributes@, key@);
            }
            Some(render_plain(*n))
        },
        Some(AttrValue::Bool(b)) => Some(
            if *b {
                String::from_str("true")
            } else {
                String::from_str("false")
            },
        ),
        _ => None,
    };
    match value_text {
        Some(v) => {
            let mut line = String::from_str(label);
            line.append(": ");
            line.append(v.as_str());
            proof {
                assert(spec_info_line(e, key@, label@) == Some(line@));
            }
            if line.as_str().unicode_len() <= 45 {
                c.draw_text(15, y, line.as_str(), Rgb { r: 70, g: 70, b: 70 }, 1, 50);
                y + 18
            } else {
                y
            }
        },
        None => y,
    }
}

/// The id line shown first in the info band.
pub open spec fn spec_entity_line(e: &EntityRecord) -> Seq<char> {
    "Entity: "@ + crate::strutil::spec_truncate(e.id@, 35, 32)
}

/// What the info band paints at `(i, j)`: the band fill and its 1px
/// border, the `Entity:` id line, then the seven fixed attribute lines in
/// their fixed order, each drawn only when present, printable, at most 45
/// characters and still inside the band, advancing an 18px cursor.
pub open spec fn info_paint(e: &EntityRecord, w: int, h: int, i: int, j: int) -> Option<Rgb> {
    let grey = Rgb { r: 70, g: 70, b: 70 };
    let ent = 95 + 18 < h - 10;
    let y0 = if ent {
        113int
    } else {
        95int
    };
    let y1 = spec_info_ny(e, "device_class"@, "Type"@, y0, h);
    let y2 = spec_info_ny(e, "unit_of_measurement"@, "Unit"@, y1, h);
    let y3 = spec_info_ny(e, "temperature"@, "Temp"@, y2, h);
    let y4 = spec_info_ny(e, "humidity"@, "Humidity"@, y3, h);
    let y5 = spec_info_ny(e, "battery"@, "Battery"@, y4, h);
    let y6 = spec_info_ny(e, "brightness"@, "Brightness"@, y5, h);
    if spec_info_drawn(e, "last_changed"@, "Changed"@, y6, h) && text_px(
        spec_info_line(e, "last_changed"@, "Changed"@).unwrap(),
        15,
        y6,
        1,
        50,
        w,
        h,
        i,
        j,
    ) {
        Some(grey)
    } else if spec_info_drawn(e, "brightness"@, "Brightness"@, y5, h) && text_px(
        spec_info_line(e, "brightness"@, "Brightness"@).unwrap(),
        15,
        y5,
        1,
        50,
        w,
        h,
        i,
        j,
    ) {
        Some(grey)
    } else if spec_info_drawn(e, "battery"@, "Battery"@, y4, h) && text_px(
        spec_info_line(e, "battery"@, "Battery"@).unwrap(),
        15,
        y4,
        1,
        50,
        w,
        h,
        i,
        j,
    ) {
        Some(grey)
    } else if spec_info_drawn(e, "humidity"@, "Humidity"@, y3, h) && text_px(
        spec_info_line(e, "humidity"@, "Humidity"@).unwrap(),
        15,
        y3,
        1,
        50,
        w,
        h,
        i,
        j,
    ) {
        Some(grey)
    } else if spec_info_drawn(e, "temperature"@, "Temp"@, y2, h) && text_px(
        spec_info_line(e, "temperature"@, "Temp"@).unwrap(),
        15,
        y2,
        1,
        50,
        w,
        h,
        i,
        j,
    ) {
        Some(grey)
    } else if spec_info_drawn(e, "unit_of_measurement"@, "Unit"@, y1, h) && text_px(
        spec_info_line(e, "unit_of_measurement"@, "Unit"@).unwrap(),
        15,
        y1,
        1,
        50,
        w,
        h,
        i,
        j,
    ) {
        Some(grey)
    } else if spec_info_drawn(e, "device_class"@, "Type"@, y0, h) && text_px(
        spec_info_line(e, "device_class"@, "Type"@).unwrap(),
        15,
        y0,
        1,
        50,
        w,
        h,
        i,
        j,
    ) {
        Some(grey)
    } else if ent && text_px(spec_entity_line(e), 15, 95, 1, 50, w, h, i, j) {
        Some(Rgb { r: 40, g: 40, b: 40 })
    } else if on_border(8, 92, w - 8, h - 8, 1, i, j) {
        Some(Rgb { r: 180, g: 180, b: 180 })
    } else if in_rect(8, 92, w - 8, h - 8, i, j) {
        Some(Rgb { r: 245, g: 245, b: 250 })
    } else {
        None
    }
}

/// Info band: light background rows 92 to height-8, 1px border, the entity
/// id (truncated to 35 characters) and up to seven fixed attributes, line
/// by line, skipping lines that would not fit. Exactly the pixels of
/// `info_paint` change; rows above the band and below its bottom edge are
/// untouched.
pub fn draw_entity_info(c: &mut Canvas<Rgb>, e: &EntityRecord)
    requires
        old(c).wf(),
        e.wf(),
    ensures
        final(c).wf(),
        final(c).same_size(old(c)),
        forall|i: int, j: int|
            old(c).in_bounds(i, j) && !(92 <= j < old(c).spec_height() - 8) ==> final(c).px(i, j)
                == old(c).px(i, j),
        forall|i: int, j: int|
            old(c).in_bounds(i, j) ==> final(c).px(i, j) == (match info_paint(
                e,
                old(c).spec_width(),
                old(c).spec_height(),
                i,
                j,
            ) {
                Some(p) => p,
                None => old(c).px(i, j),
            }),
{
    let ghost wi = old(c).spec_width();
    let ghost hi = old(c).spec_height();
    let w = c.width();
    let h = c.height();
    let right = sat_sub(w, 8);
    let bottom = sat_sub(h, 8);
    let ghost s0 = *c;
    c.fill_rect(8, 92, right, bottom, Rgb { r: 245, g: 245, b: 250 });
    let ghost s1 = *c;
    c.stroke_rect(8, 92, right, bottom, 1, Rgb { r: 180, g: 180, b: 180 });
    let ghost s2 = *c;
    let mut y: usize = 95;
    if y + 18 < sat_sub(h, 10) {
        let id_short = truncate_ellipsis(e.id.as_str(), 35, 32);
        let mut line = String::from_str("Entity: ");
        line.append(id_short.as_str());
        proof {
            assert(line@ == spec_entity_line(e));
        }
        c.draw_text(15, y, line.as_str(), Rgb { r: 40, g: 40, b: 40 }, 1, 50);
        y = y + 18;
    }
    let ghost s3 = *c;
    proof {
        assert(y as int == (if 95 + 18 < hi - 10 {
            113int
        } else {
            95int
        }));
    }
    y = draw_info_attr(c, e, "device_class", "Type", y);
    let ghost s4 = *c;
    let ghost gy1 = y as int;
    y = draw_info_attr(c, e, "unit_of_measurement", "Unit", y);
    let ghost s5 = *c;
    let ghost gy2 = y as int;
    y = draw_info_attr(c, e, "temperature", "Temp", y);
    let ghost s6 = *c;
    let ghost gy3 = y as int;
    y = draw_info_attr(c, e, "humidity", "Humidity", y);
    let ghost s7 = *c;
    let ghost gy4 = y as int;
    y = draw_info_attr(c, e, "battery", "Battery", y);
    let ghost s8 = *c;
    let ghost gy5 = y as int;
    y = draw_info_attr(c, e, "brightness", "Brightness", y);
    let ghost s9 = *c;
    let ghost gy6 = y as int;
    let _ = draw_info_attr(c, e, "last_changed", "Changed", y);
    proof {
        let ent = 95 + 18 < hi - 10;
        let y0 = if ent {
            113int
        } else {
            95int
        };
        assert(gy1 == spec_info_ny(e, "device_class"@, "Type"@, y0, hi));
        assert(gy2 == spec_info_ny(e, "unit_of_measurement"@, "Unit"@, gy1, hi));
        assert(gy3 == spec_info_ny(e, "temperature"@, "Temp"@, gy2, hi));
        assert(gy4 == spec_info_ny(e, "humidity"@, "Humidity"@, gy3, hi));
        assert(gy5 == spec_info_ny(e, "battery"@, "Battery"@, gy4, hi));
        assert(gy6 == spec_info_ny(e, "brightness"@, "Brightness"@, gy5, hi));
        assert forall|i: int, j: int| old(c).in_bounds(i, j) implies c.px(i, j) == (match
            info_paint(e, wi, hi, i, j) {
            Some(p) => p,
            None => old(c).px(i, j),
        }) by {
            assert(s1.px(i, j) == (if in_rect(8, 92, right as int, bottom as int, i, j) {
                (Rgb { r: 245, g: 245, b: 250 })
            } else {
                s0.px(i, j)
            }));
            assert(s2.px(i, j) == (if on_border(8, 92, right as int, bottom as int, 1, i, j) {
                (Rgb { r: 180, g: 180, b: 180 })
            } else {
                s1.px(i, j)
            }));
            assert(s3.px(i, j) == (if ent && text_px(spec_entity_line(e), 15, 95, 1, 50, wi, hi, i, j) {
                (Rgb { r: 40, g: 40, b: 40 })
            } else {
                s2.px(i, j)
            }));
            assert(s4.px(i, j) == (if spec_info_drawn(e, "device_class"@, "Type"@, y0, hi)
                && text_px(
                spec_info_line(e, "device_class"@, "Type"@).unwrap(),
                15,
                y0,
                1,
                50,
                wi,
                hi,
                i,
                j,
            ) {
                (Rgb { r: 70, g: 70, b: 70 })
            } else {
                s3.px(i, j)
            }));
            assert(s5.px(i, j) == (if spec_info_drawn(e, "unit_of_measurement"@, "Unit"@, gy1, hi)
                && text_px(
                spec_info_line(e, "unit_of_measurement"@, "Unit"@).unwrap(),
                15,
                gy1,
                1,
                50,
                wi,
                hi,
                i,
                j,
            ) {
                (Rgb { r: 70, g: 70, b: 70 })
            } else {
                s4.px(i, j)
            }));
            assert(s6.px(i, j) == (if spec_info_drawn(e, "temperature"@, "Temp"@, gy2, hi)
                && text_px(
                spec_info_line(e, "temperature"@, "Temp"@).unwrap(),
                15,
                gy2,
                1,
                50,
                wi,
                hi,
                i,
                j,
            ) {
                (Rgb { r: 70, g: 70, b: 70 })
            } else {
                s5.px(i, j)
            }));
            assert(s7.px(i, j) == (if spec_info_drawn(e, "humidity"@, "Humidity"@, gy3, hi)
                && text_px(
                spec_info_line(e, "humidity"@, "Humidity"@).unwrap(),
                15,
                gy3,
                1,
                50,
                wi,
                hi,
                i,
                j,
            ) {
                (Rgb { r: 70, g: 70, b: 70 })
            } else {
                s6.px(i, j)
            }));
            assert(s8.px(i, j) == (if spec_info_drawn(e, "battery"@, "Battery"@, gy4, hi)
                && text_px(
                spec_info_line(e, "battery"@, "Battery"@).unwrap(),
                15,
                gy4,
                1,
                50,
                wi,
                hi,
                i,
                j,
            ) {
                (Rgb { r: 70, g: 70, b: 70 })
            } else {
                s7.px(i, j)
            }));
            assert(s9.px(i, j) == (if spec_info_drawn(e, "brightness"@, "Brightness"@, gy5, hi)
                && text_px(
                spec_info_line(e, "brightness"@, "Brightness"@).unwrap(),
                15,
                gy5,
                1,
                50,
                wi,
                hi,
                i,
                j,
            ) {
                (Rgb { r: 70, g: 70, b: 70 })
            } else {
                s8.px(i, j)
            }));
            assert(c.px(i, j) == (if spec_info_drawn(e, "last_changed"@, "Changed"@, gy6, hi)
                && text_px(
                spec_info_line(e, "last_changed"@, "Changed"@).unwrap(),
                15,
                gy6,
                1,
                50,
                wi,
                hi,
                i,
                j,
            ) {
                (Rgb { r: 70, g: 70, b: 70 })
            } else {
                s9.px(i, j)
            }));
        }
        assert forall|i: int, j: int|
            old(c).in_bounds(i, j) && !(92 <= j < old(c).spec_height() - 8) implies c.px(i, j)
            == old(c).px(i, j) by {
            assert(s1.px(i, j) == s0.px(i, j));
            assert(s2.px(i, j) == s1.px(i, j));
            assert(s3.px(i, j) == s2.px(i, j));
            assert(s4.px(i, j) == s3.px(i, j));
            assert(s5.px(i, j) == s4.px(i, j));
            assert(s6.px(i, j) == s5.px(i, j));
            assert(s7.px(i, j) == s6.px(i, j));
            assert(s8.px(i, j) == s7.px(i, j));
            assert(s9.px(i, j) == s8.px(i, j));
        }
    }
}

/// Circular status indicator top-right of the status band: a 24px disc
/// with a 2px ring, colored by the class, plus a small white highlight.
/// Skipped entirely when the canvas is too small for it.
pub fn draw_status_indicator(c: &mut Canvas<Rgb>, class: crate::color::ColorClass)
    requires
        old(c).wf(),
    ensures
        final(c).wf(),
        final(c).same_size(old(c)),
        forall|i: int, j: int|
            old(c).in_bounds(i, j) ==> final(c).px(i, j) == ({
                let w = old(c).spec_width();
                let fits = w >= 39 && old(c).spec_height() > 76;
                if fits && Canvas::<Rgb>::disc_hit(w - 32, 59, 3, i, j) {
                    (Rgb { r: 255, g: 255, b: 255 })
                } else if fits && Canvas::<Rgb>::disc_hit(w - 27, 64, 12, i, j) {
                    Canvas::<Rgb>::disc_color(
                        w - 27,
                        64,
                        10,
                        spec_indicator_colors(class).0,
                        spec_indicator_colors(class).1,
                        i,
                        j,
                    )
                } else {
                    old(c).px(i, j)
                }
            }),
{
    let w = c.width();
    let h = c.height();
    if w >= 39 && h > 76 {
        let x_pos = w - 39;
        let (fill, ring) = indicator_colors(class);
        c.fill_disc(x_pos + 12, 64, 12, 10, fill, ring);
        let white = Rgb { r: 255, g: 255, b: 255 };
        c.fill_disc(x_pos + 7, 59, 3, 3, white, white);
    }
}

/// The finished card's pixel at `(i, j)`: the layers of the card, top
/// down — the white highlight and the class-keyed indicator disc, the
/// info band, the status band with its label, the header band with the
/// display name, the 3px outer border, and the class-keyed background
/// gradient under everything. All status coloring is keyed by the one
/// class of the entity's state.
pub open spec fn card_paint(e: &EntityRecord, w: int, h: int, i: int, j: int) -> Rgb {
    let class = spec_color_class(e.state@);
    let bg = crate::color::spec_background_gradient(class);
    let ind = spec_indicator_colors(class);
    let fits = w >= 39 && h > 76;
    if fits && Canvas::<Rgb>::disc_hit(w - 32, 59, 3, i, j) {
        Rgb { r: 255, g: 255, b: 255 }
    } else if fits && Canvas::<Rgb>::disc_hit(w - 27, 64, 12, i, j) {
        Canvas::<Rgb>::disc_color(w - 27, 64, 10, ind.0, ind.1, i, j)
    } else if info_paint(e, w, h, i, j) is Some {
        info_paint(e, w, h, i, j).unwrap()
    } else if status_paint(spec_format_status_line(e), class, w, h, i, j) is Some {
        status_paint(spec_format_status_line(e), class, w, h, i, j).unwrap()
    } else if header_paint(crate::entity::spec_display_name(e), w, h, i, j) is Some {
        header_paint(crate::entity::spec_display_name(e), w, h, i, j).unwrap()
    } else if crate::canvas::on_border(0, 0, w, h, 3, i, j) {
        Rgb { r: 80, g: 80, b: 80 }
    } else {
        crate::color::spec_blend(bg.0, bg.1, j, h)
    }
}

/// Render the single-entity status card: every pixel is exactly
/// `card_paint`.
pub fn render_status_card(e: &EntityRecord, width: usize, height: usize) -> (c: Canvas<Rgb>)
    requires
        e.wf(),
        width <= MAX_DIM,
        height <= MAX_DIM,
    ensures
        c.wf(),
        c.spec_width() == width,
        c.spec_height() == height,
        forall|i: int, j: int|
            c.in_bounds(i, j) ==> c.px(i, j) == card_paint(e, width as int, height as int, i, j),
{
    let ghost wi = width as int;
    let ghost hi = height as int;
    let class = classify_state(e.state.as_str());
    let (bg_start, bg_end) = background_gradient(class);
    let mut c = Canvas::new(width, height, Rgb { r: 255, g: 255, b: 255 });
    c.fill_gradient(0, 0, width, height, bg_start, bg_end);
    let ghost s1 = c;
    draw_border(&mut c);
    let ghost s2 = c;
    let name = e.display_name().clone();
    draw_header_section(&mut c, name.as_str());
    let ghost s3 = c;
    let status = format_entity_status(e);
    draw_status_section(&mut c, status.as_str(), class);
    let ghost s4 = c;
    draw_entity_info(&mut c, e);
    let ghost s5 = c;
    draw_status_indicator(&mut c, class);
    proof {
        assert forall|i: int, j: int| c.in_bounds(i, j) implies c.px(i, j) == card_paint(
            e,
            wi,
            hi,
            i,
            j,
        ) by {
            assert(s1.px(i, j) == (if crate::canvas::in_rect(0, 0, wi, hi, i, j) {
                crate::color::spec_blend(bg_start, bg_end, j, hi)
            } else {
                (Rgb { r: 255, g: 255, b: 255 })
            }));
            assert(s2.px(i, j) == (if crate::canvas::on_border(0, 0, wi, hi, 3, i, j) {
                (Rgb { r: 80, g: 80, b: 80 })
            } else {
                s1.px(i, j)
            }));
            assert(s3.px(i, j) == (match header_paint(name@, wi, hi, i, j) {
                Some(p) => p,
                None => s2.px(i, j),
            }));
            assert(s4.px(i, j) == (match status_paint(status@, class, wi, hi, i, j) {
                Some(p) => p,
                None => s3.px(i, j),
            }));
            assert(s5.px(i, j) == (match info_paint(e, wi, hi, i, j) {
                Some(p) => p,
                None => s4.px(i, j),
            }));
        }
    }
    c
}

/// The row-major RGB samples of the finished card, three bytes per pixel.
pub open spec fn card_bytes(e: &EntityRecord, w: int, h: int) -> Seq<u8> {
    Seq::new(
        (3 * w * h) as nat,
        |k: int|
            {
                let p = k / 3;
                let ch = k % 3;
                let px = card_paint(e, w, h, p % w, p / w);
                if ch == 0 {
                    px.r
                } else if ch == 1 {
                    px.g
                } else {
                    px.b
                }
            },
    )
}

/// Render the status card and encode it as a PNG byte stream: the bytes
/// are exactly the PNG encoding of the card's pixels, and encoding
/// succeeds whenever both dimensions are positive.
pub fn generate_status_image(e: &EntityRecord, width: usize, height: usize) -> (r: Option<Vec<u8>>)
    requires
        e.wf(),
        width <= MAX_DIM,
        height <= MAX_DIM,
    ensures
        width > 0 && height > 0 ==> r is Some,
        r is Some ==> r.unwrap()@ == rgb_png_bytes(
            width as int,
            height as int,
            card_bytes(e, width as int, height as int),
        ),
{
    let c = render_status_card(e, width, height);
    let r = encode_canvas_png(&c);
    proof {
        if r is Some {
            let wi = width as int;
            let hi = height as int;
            assert(crate::png::spec_rgb_bytes(&c) =~= card_bytes(e, wi, hi)) by {
                assert forall|k: int| 0 <= k < 3 * wi * hi implies crate::png::spec_rgb_bytes(&c)[k]
                    == card_bytes(e, wi, hi)[k] by {
                    if wi > 0 {
                        let p = k / 3;
                        vstd::arithmetic::div_mod::lemma_fundamental_div_mod(k, 3);
                        vstd::arithmetic::div_mod::lemma_fundamental_div_mod(p, wi);
                        assert(0 <= p < wi * hi) by (nonlinear_arith)
                            requires
                                0 <= k < 3 * wi * hi,
                                p == k / 3,
                                k == 3 * p + k % 3,
                                0 <= k % 3 < 3,
                        ;
                        assert(0 <= p % wi < wi && 0 <= p / wi < hi) by (nonlinear_arith)
                            requires
                                0 <= p < wi * hi,
                                wi > 0,
                                p == wi * (p / wi) + p % wi,
                                0 <= p % wi < wi,
                        ;
                        assert(c.px(p % wi, p / wi) == card_paint(e, wi, hi, p % wi, p / wi));
                    }
                }
            }
        }
    }
    r
}

} // verus!
