//! The fixed 800x480 e-paper panel template, drawn in grayscale and
//! quantized to pure black/white before encoding. Sensor rows show a
//! double-scale name; percentage sensors get a density-banded gauge with
//! tick marks, others a double-scale right-aligned value and a status
//! square. At most fifteen sensors; more are rejected before any drawing.

use vstd::prelude::*;

use crate::canvas::{in_rect, on_border, Canvas};
use crate::entity::EntityRecord;
use crate::format::{format_sensor_value, is_percentage_sensor};
use crate::numfmt::parse_decimal;
use crate::png::{encode_gray_png, gray_png_bytes};
use crate::quantize::{quantize, spec_quantize_px};
use crate::strutil::{spec_truncate, str_eq, truncate_ellipsis};
use crate::text::text_px;
use crate::RenderError;

verus! {

/// The e-paper panel's fixed size.
pub const EPAPER_WIDTH: usize = 800;

pub const EPAPER_HEIGHT: usize = 480;

/// Largest sensor count the e-paper panel accepts.
pub const MAX_EPAPER_SENSORS: usize = 15;

/// The gauge's interior fill width for a clamped percentage in
/// thousandths: `round(194 * pm / 100000)`.
pub open spec fn spec_gauge_fill_width(pm: int) -> int {
    (194 * pm + 50_000) / 100_000
}

/// The density band pattern of a gauge fill pixel: sparse checker below
/// 25%, medium checker below 75%, solid above.
pub open spec fn gauge_pattern(pm: int, i: int, j: int) -> bool {
    if pm < 25_000 {
        (i + j) % 4 == 0
    } else if pm < 75_000 {
        (i + j) % 2 == 0
    } else {
        true
    }
}

/// A pixel of the gauge's 2px border ring.
pub open spec fn in_gauge_border(gx: int, gy: int, i: int, j: int) -> bool {
    on_border(gx, gy, gx + 200, gy + 16, 2, i, j)
}

/// A painted pixel of the gauge's patterned interior fill.
pub open spec fn in_gauge_fill(gx: int, gy: int, pm: int, i: int, j: int) -> bool {
    &&& gx + 3 <= i < gx + 3 + spec_gauge_fill_width(pm)
    &&& gy + 3 <= j < gy + 13
    &&& gauge_pattern(pm, i, j)
}

/// A pixel of the 25/50/75% tick marks above the gauge.
pub open spec fn on_gauge_tick(gx: int, gy: int, i: int, j: int) -> bool {
    &&& (i == gx + 51 || i == gx + 100 || i == gx + 148)
    &&& gy - 4 <= j < gy
}

/// The clamped percentage of a sensor state in thousandths: a parsed
/// value clamped into `[0, 100]`, an unparseable state counting as zero.
pub open spec fn spec_gauge_milli(state: Seq<char>) -> int {
    match crate::numfmt::spec_parse_decimal(state) {
        Some(d) => {
            if d.neg {
                0
            } else if d.milli > 100_000 {
                100_000
            } else {
                d.milli as int
            }
        },
        None => 0,
    }
}

/// Draw the horizontal gauge bar at `(gx, gy)`: a 200x16 bordered bar
/// whose interior fill width encodes the percentage, patterned by density
/// band, with tick marks at 25/50/75%. Paints black exactly on the
/// border, the patterned fill and the ticks.
pub fn fill_gauge(c: &mut Canvas<u8>, gx: usize, gy: usize, pm: u64)
    requires
        old(c).wf(),
        gx <= 50_000,
        4 <= gy <= 60_000,
        pm <= 100_000,
    ensures
        final(c).wf(),
        final(c).same_size(old(c)),
        forall|i: int, j: int|
            old(c).in_bounds(i, j) ==> final(c).px(i, j) == (if in_gauge_border(
                gx as int,
                gy as int,
                i,
                j,
            ) || in_gauge_fill(gx as int, gy as int, pm as int, i, j) || on_gauge_tick(
                gx as int,
                gy as int,
                i,
                j,
            ) {
                0u8
            } else {
                old(c).px(i, j)
            }),
{
    let ghost gxi = gx as int;
    let ghost gyi = gy as int;
    let ghost pmi = pm as int;
    c.stroke_rect(gx, gy, gx + 200, gy + 16, 2, 0);
    let ghost s1 = *c;
    // Patterned interior fill.
    let fw: usize = ((194 * pm + 50_000) / 100_000) as usize;
    let x_end = gx + 3 + fw;
    let mut j: usize = gy + 3;
    while j < gy + 13
        invariant
            old(c).wf(),
            c.wf(),
            c.same_size(old(c)),
            gx <= 50_000,
            4 <= gy <= 60_000,
            pm <= 100_000,
            gxi == gx as int,
            gyi == gy as int,
            pmi == pm as int,
            fw == spec_gauge_fill_width(pmi),
            fw <= 194,
            x_end == gx + 3 + fw,
            gy + 3 <= j <= gy + 13,
            s1.wf(),
            s1.same_size(old(c)),
            forall|i2: int, j2: int|
                old(c).in_bounds(i2, j2) ==> c.px(i2, j2) == (if in_gauge_fill(gxi, gyi, pmi, i2, j2)
                    && j2 < j {
                    0u8
                } else {
                    s1.px(i2, j2)
                }),
        decreases gy + 13 - j,
    {
        let mut i: usize = gx + 3;
        while i < x_end
            invariant
                old(c).wf(),
                c.wf(),
                c.same_size(old(c)),
                gx <= 50_000,
                4 <= gy <= 60_000,
                pm <= 100_000,
                gxi == gx as int,
                gyi == gy as int,
                pmi == pm as int,
                fw == spec_gauge_fill_width(pmi),
                fw <= 194,
                x_end == gx + 3 + fw,
                gy + 3 <= j < gy + 13,
                gx + 3 <= i <= x_end,
                s1.wf(),
                s1.same_size(old(c)),
                forall|i2: int, j2: int|
                    old(c).in_bounds(i2, j2) ==> c.px(i2, j2) == (if in_gauge_fill(
                        gxi,
                        gyi,
                        pmi,
                        i2,
                        j2,
                    ) && (j2 < j || (j2 == j && i2 < i)) {
                        0u8
                    } else {
                        s1.px(i2, j2)
                    }),
            decreases x_end - i,
        {
            let on = if pm < 25_000 {
                (i + j) % 4 == 0
            } else if pm < 75_000 {
                (i + j) % 2 == 0
            } else {
                true
            };
            if on {
                c.set_pixel(i, j, 0);
            }
            i = i + 1;
        }
        j = j + 1;
    }
    let ghost s2 = *c;
    // Tick marks at 25/50/75%.
    c.fill_rect(gx + 51, gy - 4, gx + 52, gy, 0);
    let ghost s3 = *c;
    c.fill_rect(gx + 100, gy - 4, gx + 101, gy, 0);
    let ghost s4 = *c;
    c.fill_rect(gx + 148, gy - 4, gx + 149, gy, 0);
    proof {
        assert forall|i: int, j: int| old(c).in_bounds(i, j) implies c.px(i, j) == (if
            in_gauge_border(gxi, gyi, i, j) || in_gauge_fill(gxi, gyi, pmi, i, j) || on_gauge_tick(
            gxi,
            gyi,
            i,
            j,
        ) {
            0u8
        } else {
            old(c).px(i, j)
        }) by {
            assert(s1.px(i, j) == (if on_border(gxi, gyi, gxi + 200, gyi + 16, 2, i, j) {
                0u8
            } else {
                old(c).px(i, j)
            }));
            assert(s2.px(i, j) == (if in_gauge_fill(gxi, gyi, pmi, i, j) {
                0u8
            } else {
                s1.px(i, j)
            }));
            assert(s3.px(i, j) == (if in_rect(gxi + 51, gyi - 4, gxi + 52, gyi, i, j) {
                0u8
            } else {
                s2.px(i, j)
            }));
            assert(s4.px(i, j) == (if in_rect(gxi + 100, gyi - 4, gxi + 101, gyi, i, j) {
                0u8
            } else {
                s3.px(i, j)
            }));
            assert(c.px(i, j) == (if in_rect(gxi + 148, gyi - 4, gxi + 149, gyi, i, j) {
                0u8
            } else {
                s4.px(i, j)
            }));
        }
    }
}

/// The left edge of the double-scale panel title, centered when it fits.
pub open spec fn spec_trmnl_title_x(len: int) -> int {
    if len * 12 < 760 {
        (800 - len * 12) / 2
    } else {
        30
    }
}

/// What the e-paper header paints at `(i, j)`, all black: the double-rule
/// separator, the centered double-scale title, the thick top rule.
pub open spec fn trmnl_header_paint(title: Seq<char>, w: int, h: int, i: int, j: int) -> Option<
    u8,
> {
    if in_rect(40, 65, 760, 67, i, j) {
        Some(0u8)
    } else if text_px(title, spec_trmnl_title_x(title.len() as int), 25, 2, 60, w, h, i, j) {
        Some(0u8)
    } else if in_rect(20, 5, 780, 15, i, j) {
        Some(0u8)
    } else {
        None
    }
}

/// Panel header: thick black top rule, large double-scale centered title,
/// double-rule separator. Exactly the pixels of `trmnl_header_paint`
/// change; rows outside the header area are untouched.
pub fn draw_trmnl_header(c: &mut Canvas<u8>, title: &str)
    requires
        old(c).wf(),
    ensures
        final(c).wf(),
        final(c).same_size(old(c)),
        forall|i: int, j: int|
            old(c).in_bounds(i, j) && !(5 <= j < 67) ==> final(c).px(i, j) == old(c).px(i, j),
        forall|i: int, j: int|
            old(c).in_bounds(i, j) ==> final(c).px(i, j) == (match trmnl_header_paint(
                title@,
                old(c).spec_width(),
                old(c).spec_height(),
                i,
                j,
            ) {
                Some(p) => p,
                None => old(c).px(i, j),
            }),
{
    let ghost s0 = *c;
    c.fill_rect(20, 5, 780, 15, 0);
    let ghost s1 = *c;
    let len = title.unicode_len();
    let title_x: usize = if len <= 63 && len * 12 < 760 {
        (800 - len * 12) / 2
    } else {
        30
    };
    proof {
        assert(title_x as int == spec_trmnl_title_x(title@.len() as int));
    }
    c.draw_text(title_x, 25, title, 0, 2, 60);
    let ghost s2 = *c;
    c.fill_rect(40, 65, 760, 67, 0);
    proof {
        assert forall|i: int, j: int| old(c).in_bounds(i, j) implies c.px(i, j) == (match
            trmnl_header_paint(title@, old(c).spec_width(), old(c).spec_height(), i, j) {
            Some(p) => p,
            None => old(c).px(i, j),
        }) by {
            assert(s1.px(i, j) == (if in_rect(20, 5, 780, 15, i, j) {
                0u8
            } else {
                s0.px(i, j)
            }));
            assert(s2.px(i, j) == (if text_px(
                title@,
                title_x as int,
                25,
                2,
                60,
                old(c).spec_width(),
                old(c).spec_height(),
                i,
                j,
            ) {
                0u8
            } else {
                s1.px(i, j)
            }));
        }
        assert forall|i: int, j: int| old(c).in_bounds(i, j) && !(5 <= j < 67) implies c.px(i, j)
            == old(c).px(i, j) by {
            assert(s1.px(i, j) == s0.px(i, j));
            assert(s2.px(i, j) == s1.px(i, j));
        }
    }
}

/// The left edge of the double-scale right-aligned value text, clamped to
/// the frame when the text is too wide.
pub open spec fn spec_trmnl_value_x(len: int) -> int {
    if len * 14 + 40 <= 800 {
        800 - len * 14 - 40
    } else {
        0
    }
}

/// What one e-paper sensor row paints at `(i, j)`, layered top down: the
/// separator line under the row (when the row fits above the footer);
/// then for an available percentage sensor the formatted value beside the
/// gauge and the gauge itself over the sensor's clamped percentage, and
/// for every other sensor the dot-colored status square and the
/// right-aligned value; and below those the double-scale truncated name
/// (25 characters for gauge rows, 35 otherwise).
pub open spec fn trmnl_row_paint(
    sensor: &EntityRecord,
    y: int,
    lh: int,
    w: int,
    h: int,
    i: int,
    j: int,
) -> Option<u8> {
    let is_pct = crate::format::spec_is_percentage(sensor);
    let unavailable = sensor.state@ == "unavailable"@;
    let max = if is_pct {
        25int
    } else {
        35int
    };
    let name_text = spec_truncate(crate::entity::spec_display_name(sensor), max, max - 3);
    let value = crate::format::spec_format_value(sensor);
    if h >= 20 && y + lh < h - 20 && y + lh >= 2 && j == y + lh - 2 && 60 <= i < 740 {
        Some(200u8)
    } else if is_pct && !unavailable {
        let pm = spec_gauge_milli(sensor.state@);
        if text_px(value, 690, y + 25, 2, 60, w, h, i, j) {
            Some(0u8)
        } else if in_gauge_border(480, y + 30, i, j) || in_gauge_fill(480, y + 30, pm, i, j)
            || on_gauge_tick(480, y + 30, i, j) {
            Some(0u8)
        } else if text_px(name_text, 40, y + 8, 2, 60, w, h, i, j) {
            Some(0u8)
        } else {
            None
        }
    } else {
        if in_rect(775, y + 25, 781, y + 31, i, j) {
            Some(
                if unavailable {
                    100u8
                } else {
                    0u8
                },
            )
        } else if text_px(value, spec_trmnl_value_x(value.len() as int), y + 25, 2, 60, w, h, i, j) {
            Some(0u8)
        } else if text_px(name_text, 40, y + 8, 2, 60, w, h, i, j) {
            Some(0u8)
        } else {
            None
        }
    }
}

/// One sensor row of the e-paper panel: a double-scale truncated name;
/// then either a gauge with the formatted value beside it (percentage
/// sensors) or a double-scale right-aligned value with a status square;
/// and a light separator line under the row. Exactly the pixels of
/// `trmnl_row_paint` change; rows outside the band are untouched.
pub fn draw_trmnl_sensor_line(c: &mut Canvas<u8>, y_pos: usize, line_height: usize, sensor:
    &EntityRecord)
    requires
        old(c).wf(),
        sensor.wf(),
        y_pos <= 10_000,
        line_height <= 65,
    ensures
        final(c).wf(),
        final(c).same_size(old(c)),
        forall|i: int, j: int|
            old(c).in_bounds(i, j) && !(y_pos - 2 <= j < y_pos + 64) ==> final(c).px(i, j) == old(
                c,
            ).px(i, j),
        forall|i: int, j: int|
            old(c).in_bounds(i, j) ==> final(c).px(i, j) == (match trmnl_row_paint(
                sensor,
                y_pos as int,
                line_height as int,
                old(c).spec_width(),
                old(c).spec_height(),
                i,
                j,
            ) {
                Some(p) => p,
                None => old(c).px(i, j),
            }),
{
    let ghost s0 = *c;
    let ghost yi = y_pos as int;
    let ghost wi = old(c).spec_width();
    let ghost hi = old(c).spec_height();
    let h = c.height();
    let name = sensor.display_name().clone();
    let value = format_sensor_value(sensor);
    let is_pct = is_percentage_sensor(sensor);
    let max_name_len: usize = if is_pct {
        25
    } else {
        35
    };
    let display = truncate_ellipsis(name.as_str(), max_name_len, max_name_len - 3);
    c.draw_text(40, y_pos + 8, display.as_str(), 0, 2, 60);
    let ghost s1 = *c;
    let unavailable = str_eq(sensor.state.as_str(), "unavailable");
    if is_pct && !unavailable {
        let pm: u64 = match parse_decimal(sensor.state.as_str()) {
            Some(d) => {
                if d.neg {
                    0
                } else if d.milli > 100_000 {
                    100_000
                } else {
                    d.milli
                }
            },
            None => 0,
        };
        proof {
            assert(pm as int == spec_gauge_milli(sensor.state@));
        }
        fill_gauge(c, 480, y_pos + 30, pm);
        let ghost s2 = *c;
        c.draw_text(690, y_pos + 25, value.as_str(), 0, 2, 60);
        proof {
            assert forall|i: int, j: int| old(c).in_bounds(i, j) implies c.px(i, j) == ({
                let pms = spec_gauge_milli(sensor.state@);
                if text_px(value@, 690, yi + 25, 2, 60, wi, hi, i, j) {
                    0u8
                } else if in_gauge_border(480, yi + 30, i, j) || in_gauge_fill(
                    480,
                    yi + 30,
                    pms,
                    i,
                    j,
                ) || on_gauge_tick(480, yi + 30, i, j) {
                    0u8
                } else if text_px(display@, 40, yi + 8, 2, 60, wi, hi, i, j) {
                    0u8
                } else {
                    s0.px(i, j)
                }
            }) by {
                assert(s1.px(i, j) == (if text_px(display@, 40, yi + 8, 2, 60, wi, hi, i, j) {
                    0u8
                } else {
                    s0.px(i, j)
                }));
                assert(s2.px(i, j) == (if in_gauge_border(480, yi + 30, i, j) || in_gauge_fill(
                    480,
                    yi + 30,
                    pm as int,
                    i,
                    j,
                ) || on_gauge_tick(480, yi + 30, i, j) {
                    0u8
                } else {
                    s1.px(i, j)
                }));
            }
        }
    } else {
        let value_len = value.as_str().unicode_len();
        let value_width = if value_len <= 100 {
            value_len * 14
        } else {
            1400
        };
        let value_x: usize = if value_width + 40 <= 800 {
            800 - value_width - 40
        } else {
            0
        };
        proof {
            assert(value_x as int == spec_trmnl_value_x(value@.len() as int));
        }
        c.draw_text(value_x, y_pos + 25, value.as_str(), 0, 2, 60);
        let ghost s3 = *c;
        let dot: u8 = if unavailable {
            100
        } else {
            0
        };
        c.fill_rect(775, y_pos + 25, 781, y_pos + 31, dot);
        proof {
            assert forall|i: int, j: int| old(c).in_bounds(i, j) implies c.px(i, j) == (if in_rect(
                775,
                yi + 25,
                781,
                yi + 31,
                i,
                j,
            ) {
                dot
            } else if text_px(
                value@,
                spec_trmnl_value_x(value@.len() as int),
                yi + 25,
                2,
                60,
                wi,
                hi,
                i,
                j,
            ) {
                0u8
            } else if text_px(display@, 40, yi + 8, 2, 60, wi, hi, i, j) {
                0u8
            } else {
                s0.px(i, j)
            }) by {
                assert(s1.px(i, j) == (if text_px(display@, 40, yi + 8, 2, 60, wi, hi, i, j) {
                    0u8
                } else {
                    s0.px(i, j)
                }));
                assert(s3.px(i, j) == (if text_px(
                    value@,
                    value_x as int,
                    yi + 25,
                    2,
                    60,
                    wi,
                    hi,
                    i,
                    j,
                ) {
                    0u8
                } else {
                    s1.px(i, j)
                }));
            }
        }
    }
    let ghost s4 = *c;
    if h >= 20 && y_pos + line_height < h - 20 && y_pos + line_height >= 2 {
        c.fill_row(y_pos + line_height - 2, 60, 740, 200);
    }
    proof {
        let li = line_height as int;
        assert forall|i: int, j: int| old(c).in_bounds(i, j) implies c.px(i, j) == (match
            trmnl_row_paint(sensor, yi, li, wi, hi, i, j) {
            Some(p) => p,
            None => old(c).px(i, j),
        }) by {
            assert(c.px(i, j) == (if hi >= 20 && yi + li < hi - 20 && yi + li >= 2 && j == yi + li
                - 2 && 60 <= i < 740 {
                200u8
            } else {
                s4.px(i, j)
            }));
        }
        assert forall|i: int, j: int|
            old(c).in_bounds(i, j) && !(y_pos - 2 <= j < y_pos + 64) implies c.px(i, j) == old(
            c,
        ).px(i, j) by {
            assert(s1.px(i, j) == s0.px(i, j));
            assert(s4.px(i, j) == s1.px(i, j));
        }
    }
}

/// Thick black border around the full e-paper frame.
pub fn draw_trmnl_border(c: &mut Canvas<u8>)
    requires
        old(c).wf(),
    ensures
        final(c).wf(),
        final(c).same_size(old(c)),
        forall|i: int, j: int|
            old(c).in_bounds(i, j) ==> final(c).px(i, j) == (if on_border(
                0,
                0,
                old(c).spec_width(),
                old(c).spec_height(),
                3,
                i,
                j,
            ) {
                0u8
            } else {
                old(c).px(i, j)
            }),
{
    let w = c.width();
    let h = c.height();
    c.stroke_rect(0, 0, w, h, 3, 0);
}

/// The panel's row height: 65px for up to six sensors, else shrunk to
/// fit the available 380px, capped at 55px.
pub open spec fn spec_epaper_line_height(n: int) -> int {
    if n > 6 {
        if 380int / n < 55 {
            380int / n
        } else {
            55
        }
    } else {
        65
    }
}

/// What the first `k` sensor rows paint at `(i, j)`: row `m` starts at
/// `80 + m * lh` and is drawn only when the whole row fits above the
/// bottom margin; later rows overdraw earlier ones.
pub open spec fn epaper_rows_paint(
    sensors: Seq<EntityRecord>,
    k: int,
    lh: int,
    i: int,
    j: int,
) -> Option<u8>
    decreases k,
{
    if k <= 0 {
        None
    } else {
        let y = 80 + (k - 1) * lh;
        let cur = if y + lh <= 470 {
            trmnl_row_paint(&sensors[k - 1], y, lh, 800, 480, i, j)
        } else {
            None
        };
        match cur {
            Some(p) => Some(p),
            None => epaper_rows_paint(sensors, k - 1, lh, i, j),
        }
    }
}

/// The title shown on the e-paper panel: the caller's, or the fixed
/// default.
pub open spec fn spec_epaper_title(title: Option<&str>) -> Seq<char> {
    match title {
        Some(t) => t@,
        None => "SENSOR STATUS"@,
    }
}

/// The finished grayscale panel's pixel at `(i, j)`: the thick border
/// over the sensor rows over the header over the white background.
pub open spec fn epaper_paint(sensors: Seq<EntityRecord>, title: Seq<char>, i: int, j: int) -> u8 {
    let lh = spec_epaper_line_height(sensors.len() as int);
    let rows = epaper_rows_paint(sensors, sensors.len() as int, lh, i, j);
    if on_border(0, 0, 800, 480, 3, i, j) {
        0u8
    } else if rows is Some {
        rows.unwrap()
    } else if trmnl_header_paint(title, 800, 480, i, j) is Some {
        trmnl_header_paint(title, 800, 480, i, j).unwrap()
    } else {
        255u8
    }
}

/// Render the e-paper panel in grayscale, before quantization.
///
/// Rejects an empty list and one of more than fifteen sensors before any
/// canvas is produced; otherwise every pixel of the 800x480 canvas is
/// exactly `epaper_paint`, with the row height of
/// `spec_epaper_line_height`.
pub fn render_epaper_panel(sensors: &Vec<EntityRecord>, title: Option<&str>) -> (r: Result<
    Canvas<u8>,
    RenderError,
>)
    requires
        forall|k: int| 0 <= k < sensors@.len() ==> (#[trigger] sensors@[k]).wf(),
    ensures
        sensors@.len() == 0 <==> r == Err::<Canvas<u8>, RenderError>(RenderError::NoSensors),
        sensors@.len() > MAX_EPAPER_SENSORS as int <==> r == Err::<Canvas<u8>, RenderError>(
            RenderError::TooManySensors,
        ),
        r is Ok <==> 1 <= sensors@.len() <= MAX_EPAPER_SENSORS as int,
        r is Ok ==> r.unwrap().wf() && r.unwrap().spec_width() == EPAPER_WIDTH as int
            && r.unwrap().spec_height() == EPAPER_HEIGHT as int,
        r is Ok ==> forall|i: int, j: int|
            r.unwrap().in_bounds(i, j) ==> r.unwrap().px(i, j) == epaper_paint(
                sensors@,
                spec_epaper_title(title),
                i,
                j,
            ),
{
    let n = sensors.len();
    if n == 0 {
        return Err(RenderError::NoSensors);
    }
    if n > MAX_EPAPER_SENSORS {
        return Err(RenderError::TooManySensors);
    }
    let mut c: Canvas<u8> = Canvas::new(EPAPER_WIDTH, EPAPER_HEIGHT, 255);
    let ghost s0 = c;
    let header = match title {
        Some(t) => t,
        None => "SENSOR STATUS",
    };
    draw_trmnl_header(&mut c, header);
    let ghost s1 = c;
    proof {
        assert(header@ == spec_epaper_title(title));
        assert forall|i2: int, j2: int| c.in_bounds(i2, j2) implies c.px(i2, j2) == (match
            trmnl_header_paint(spec_epaper_title(title), 800, 480, i2, j2) {
            Some(p) => p,
            None => 255u8,
        }) by {
            assert(s0.px(i2, j2) == 255u8);
        }
    }
    let available_height: usize = EPAPER_HEIGHT - 80 - 20;
    let line_height: usize = if n > 6 {
        let fit = available_height / n;
        if fit < 55 {
            fit
        } else {
            55
        }
    } else {
        65
    };
    proof {
        assert(line_height as int == spec_epaper_line_height(n as int));
    }
    let mut i: usize = 0;
    while i < n
        invariant
            c.wf(),
            c.spec_width() == EPAPER_WIDTH as int,
            c.spec_height() == EPAPER_HEIGHT as int,
            n == sensors@.len(),
            n <= MAX_EPAPER_SENSORS,
            i <= n,
            line_height <= 65,
            forall|k: int| 0 <= k < sensors@.len() ==> (#[trigger] sensors@[k]).wf(),
            s1.same_size(&c),
            forall|i2: int, j2: int|
                c.in_bounds(i2, j2) ==> c.px(i2, j2) == (match epaper_rows_paint(
                    sensors@,
                    i as int,
                    line_height as int,
                    i2,
                    j2,
                ) {
                    Some(p) => p,
                    None => s1.px(i2, j2),
                }),
        decreases n - i,
    {
        assert(i * line_height <= 15 * 65) by (nonlinear_arith)
            requires
                0 <= i < 15,
                0 <= line_height <= 65,
        ;
        let y_pos = 80 + i * line_height;
        let ghost prev = c;
        let sensor = &sensors[i];
        if y_pos + line_height <= EPAPER_HEIGHT - 10 {
            draw_trmnl_sensor_line(&mut c, y_pos, line_height, sensor);
        }
        proof {
            assert(*sensor == sensors@[i as int]);
            assert(y_pos as int == 80 + (i as int) * (line_height as int));
            assert forall|i2: int, j2: int| c.in_bounds(i2, j2) implies c.px(i2, j2) == (match
                epaper_rows_paint(sensors@, i as int + 1, line_height as int, i2, j2) {
                Some(p) => p,
                None => s1.px(i2, j2),
            }) by {
                if y_pos + line_height <= EPAPER_HEIGHT - 10 {
                    assert(c.px(i2, j2) == (match trmnl_row_paint(
                        sensor,
                        y_pos as int,
                        line_height as int,
                        800,
                        480,
                        i2,
                        j2,
                    ) {
                        Some(p) => p,
                        None => prev.px(i2, j2),
                    }));
                    assert(trmnl_row_paint(
                        sensor,
                        y_pos as int,
                        line_height as int,
                        800,
                        480,
                        i2,
                        j2,
                    ) == trmnl_row_paint(
                        &sensors@[i as int],
                        y_pos as int,
                        line_height as int,
                        800,
                        480,
                        i2,
                        j2,
                    ));
                } else {
                    assert(c.px(i2, j2) == prev.px(i2, j2));
                }
            }
        }
        i = i + 1;
    }
    draw_trmnl_border(&mut c);
    proof {
        assert forall|i2: int, j2: int| c.in_bounds(i2, j2) implies c.px(i2, j2) == epaper_paint(
            sensors@,
            spec_epaper_title(title),
            i2,
            j2,
        ) by {
            assert(c.px(i2, j2) == (if on_border(0, 0, 800, 480, 3, i2, j2) {
                0u8
            } else {
                (match epaper_rows_paint(sensors@, n as int, line_height as int, i2, j2) {
                    Some(p) => p,
                    None => s1.px(i2, j2),
                })
            }));
        }
    }
    Ok(c)
}

/// The row-major samples of the finished 1-bit panel: the rendered
/// grayscale pixels after thresholding at 128. Every sample is 0 or 255.
pub open spec fn epaper_png_samples(sensors: Seq<EntityRecord>, title: Seq<char>) -> Seq<u8> {
    Seq::new(
        (EPAPER_WIDTH * EPAPER_HEIGHT) as nat,
        |k: int| spec_quantize_px(epaper_paint(sensors, title, k % 800, k / 800), 128),
    )
}

/// Render the e-paper panel, quantize it to pure black/white, and encode
/// it as a PNG byte stream. A valid list always succeeds, and the result
/// is exactly the PNG encoding of the quantized panel: an 800x480
/// single-channel image whose samples are all 0 or 255.
pub fn generate_trmnl_image(sensors: &Vec<EntityRecord>, title: Option<&str>) -> (r: Result<
    Vec<u8>,
    RenderError,
>)
    requires
        forall|k: int| 0 <= k < sensors@.len() ==> (#[trigger] sensors@[k]).wf(),
    ensures
        sensors@.len() == 0 <==> r == Err::<Vec<u8>, RenderError>(RenderError::NoSensors),
        sensors@.len() > MAX_EPAPER_SENSORS as int <==> r == Err::<Vec<u8>, RenderError>(
            RenderError::TooManySensors,
        ),
        1 <= sensors@.len() <= MAX_EPAPER_SENSORS as int ==> r is Ok,
        r is Ok ==> r.unwrap()@ == gray_png_bytes(
            EPAPER_WIDTH as int,
            EPAPER_HEIGHT as int,
            epaper_png_samples(sensors@, spec_epaper_title(title)),
        ),
        r is Ok ==> forall|k: int|
            0 <= k < EPAPER_WIDTH * EPAPER_HEIGHT ==> #[trigger] epaper_png_samples(
                sensors@,
                spec_epaper_title(title),
            )[k] == 0 || epaper_png_samples(sensors@, spec_epaper_title(title))[k] == 255,
{
    let c = match render_epaper_panel(sensors, title) {
        Ok(c) => c,
        Err(e) => {
            return Err(e);
        },
    };
    let q = quantize(&c, 128);
    match encode_gray_png(&q) {
        Some(bytes) => {
            proof {
                let t = spec_epaper_title(title);
                let w = EPAPER_WIDTH as int;
                let h = EPAPER_HEIGHT as int;
                assert(crate::png::spec_gray_bytes(&q) =~= epaper_png_samples(sensors@, t)) by {
                    assert forall|k: int| 0 <= k < w * h implies crate::png::spec_gray_bytes(&q)[k]
                        == epaper_png_samples(sensors@, t)[k] by {
                        assert(0 <= k % w < w && 0 <= k / w < h) by (nonlinear_arith)
                            requires
                                0 <= k < w * h,
                                w == 800,
                                h == 480,
                        ;
                        assert(q.px(k % w, k / w) == spec_quantize_px(c.px(k % w, k / w), 128));
                        assert(c.px(k % w, k / w) == epaper_paint(sensors@, t, k % w, k / w));
                    }
                }
            }
            Ok(bytes)
        },
        None => {
            proof {
                assert(false);
            }
            Err(RenderError::EncodingFailed)
        },
    }
}

} // verus!
