//! The multi-sensor list panel template: light gradient background, 3px
//! border, a full-width header, and one 35px row per sensor with name,
//! formatted value and an availability dot. At most ten sensors; more are
//! rejected before any drawing begins.

use vstd::prelude::*;

use crate::canvas::{in_rect, on_border, Canvas, MAX_DIM};
use crate::card::{draw_border, sat_sub};
use crate::color::Rgb;
use crate::entity::EntityRecord;
use crate::format::format_sensor_value;
use crate::png::{encode_canvas_png, rgb_png_bytes};
use crate::strutil::{spec_truncate, str_eq, truncate_ellipsis};
use crate::text::text_px;
use crate::RenderError;

verus! {

/// Largest sensor count the list panel accepts.
pub const MAX_PANEL_SENSORS: usize = 10;

/// The default panel height: header, one 40px line per sensor, bottom
/// padding.
pub fn default_panel_height(n: usize) -> (h: usize)
    requires
        n <= 100,
    ensures
        h == 80 + 40 * n + 20,
{
    80 + 40 * n + 20
}

/// What the panel header paints at `(i, j)`, layered top down: the
/// centered white title, the 1px border, the dark band gradient.
pub open spec fn panel_header_paint(title: Seq<char>, w: int, h: int, i: int, j: int) -> Option<
    Rgb,
> {
    let x = crate::card::spec_centered_x(title.len() as int, w);
    if text_px(title, x, 25, 1, 50, w, h, i, j) {
        Some(Rgb { r: 255, g: 255, b: 255 })
    } else if on_border(8, 8, w - 8, 50, 1, i, j) {
        Some(Rgb { r: 100, g: 100, b: 120 })
    } else if in_rect(8, 8, w - 8, 50, i, j) {
        Some(
            crate::color::spec_blend(
                Rgb { r: 70, g: 70, b: 90 },
                Rgb { r: 50, g: 50, b: 70 },
                j - 8,
                42,
            ),
        )
    } else {
        None
    }
}

/// Panel header band: dark gradient rows 8..50 spanning the full width,
/// 1px border, centered title. Exactly the pixels of `panel_header_paint`
/// change; rows outside the band are untouched.
pub fn draw_multi_sensor_header(c: &mut Canvas<Rgb>, title: &str)
    requires
        old(c).wf(),
    ensures
        final(c).wf(),
        final(c).same_size(old(c)),
        forall|i: int, j: int|
            old(c).in_bounds(i, j) && !(8 <= j < 50) ==> final(c).px(i, j) == old(c).px(i, j),
        forall|i: int, j: int|
            old(c).in_bounds(i, j) ==> final(c).px(i, j) == (match panel_header_paint(
                title@,
                old(c).spec_width(),
                old(c).spec_height(),
                i,
                j,
            ) {
                Some(p) => p,
                None => old(c).px(i, j),
            }),
{
    let w = c.width();
    let right = sat_sub(w, 8);
    let ghost s0 = *c;
    c.fill_gradient(8, 8, right, 50, Rgb { r: 70, g: 70, b: 90 }, Rgb { r: 50, g: 50, b: 70 });
    let ghost s1 = *c;
    c.stroke_rect(8, 8, right, 50, 1, Rgb { r: 100, g: 100, b: 120 });
    let ghost s2 = *c;
    let x = crate::card::centered_text_x(title.unicode_len(), w);
    c.draw_text(x, 25, title, Rgb { r: 255, g: 255, b: 255 }, 1, 50);
    proof {
        assert forall|i: int, j: int| old(c).in_bounds(i, j) implies c.px(i, j) == (match
            panel_header_paint(title@, old(c).spec_width(), old(c).spec_height(), i, j) {
            Some(p) => p,
            None => old(c).px(i, j),
        }) by {
            assert(s1.px(i, j) == (if in_rect(8, 8, right as int, 50, i, j) {
                crate::color::spec_blend(
                    Rgb { r: 70, g: 70, b: 90 },
                    Rgb { r: 50, g: 50, b: 70 },
                    j - 8,
                    42,
                )
            } else {
                s0.px(i, j)
            }));
            assert(s2.px(i, j) == (if on_border(8, 8, right as int, 50, 1, i, j) {
                (Rgb { r: 100, g: 100, b: 120 })
            } else {
                s1.px(i, j)
            }));
        }
        assert forall|i: int, j: int| old(c).in_bounds(i, j) && !(8 <= j < 50) implies c.px(i, j)
            == old(c).px(i, j) by {
            assert(s1.px(i, j) == s0.px(i, j));
            assert(s2.px(i, j) == s1.px(i, j));
        }
    }
}

/// The left edge of the row's right-aligned value text: pulled in from
/// the right edge by the text's width (at most 150px), or the fixed left
/// offset on a narrow panel.
pub open spec fn spec_value_x(len: int, w: int) -> int {
    if w > 200 {
        w - (if len * 7 + 20 < 150 {
            len * 7 + 20
        } else {
            150
        })
    } else {
        20
    }
}

/// What one sensor row paints at `(i, j)`, layered top down: the
/// availability dot, the right-aligned formatted value, the truncated
/// name, the two 1px separators, the shaded background. Availability
/// alone decides every color.
pub open spec fn sensor_row_paint(
    sensor: &EntityRecord,
    y: int,
    w: int,
    h: int,
    i: int,
    j: int,
) -> Option<Rgb> {
    let unavailable = sensor.state@ == "unavailable"@;
    let name_text = spec_truncate(crate::entity::spec_display_name(sensor), 25, 22);
    let value = crate::format::spec_format_value(sensor);
    let vx = spec_value_x(value.len() as int, w);
    if w >= 25 && Canvas::<Rgb>::disc_hit(w - 21, y + 14, 4, i, j) {
        Some(
            if unavailable {
                Rgb { r: 200, g: 50, b: 50 }
            } else {
                Rgb { r: 50, g: 200, b: 50 }
            },
        )
    } else if text_px(value, vx, y + 20, 1, 50, w, h, i, j) {
        Some(
            if unavailable {
                Rgb { r: 180, g: 50, b: 50 }
            } else {
                Rgb { r: 40, g: 120, b: 40 }
            },
        )
    } else if text_px(name_text, 20, y + 8, 1, 50, w, h, i, j) {
        Some(
            if unavailable {
                Rgb { r: 120, g: 120, b: 120 }
            } else {
                Rgb { r: 60, g: 60, b: 60 }
            },
        )
    } else if (j == y || j == y + 34) && 15 <= i < w - 15 {
        Some(Rgb { r: 200, g: 200, b: 210 })
    } else if in_rect(15, y, w - 15, y + 35, i, j) {
        Some(
            if unavailable {
                Rgb { r: 240, g: 240, b: 240 }
            } else {
                Rgb { r: 248, g: 248, b: 252 }
            },
        )
    } else {
        None
    }
}

/// One sensor row: shaded background with 1px separators, left-aligned
/// truncated name, right-aligned formatted value, and a small status dot,
/// all colored by availability. Exactly the pixels of `sensor_row_paint`
/// change; rows outside the band are untouched.
pub fn draw_sensor_line(c: &mut Canvas<Rgb>, y_pos: usize, sensor: &EntityRecord)
    requires
        old(c).wf(),
        sensor.wf(),
        y_pos <= 50_000,
    ensures
        final(c).wf(),
        final(c).same_size(old(c)),
        forall|i: int, j: int|
            old(c).in_bounds(i, j) && !(y_pos <= j < y_pos + 35) ==> final(c).px(i, j) == old(
                c,
            ).px(i, j),
        forall|i: int, j: int|
            old(c).in_bounds(i, j) ==> final(c).px(i, j) == (match sensor_row_paint(
                sensor,
                y_pos as int,
                old(c).spec_width(),
                old(c).spec_height(),
                i,
                j,
            ) {
                Some(p) => p,
                None => old(c).px(i, j),
            }),
{
    let ghost s0 = *c;
    let w = c.width();
    let name = sensor.display_name().clone();
    let value = format_sensor_value(sensor);
    let unavailable = str_eq(sensor.state.as_str(), "unavailable");
    let (bg, text_color, value_color) = if unavailable {
        (
            Rgb { r: 240, g: 240, b: 240 },
            Rgb { r: 120, g: 120, b: 120 },
            Rgb { r: 180, g: 50, b: 50 },
        )
    } else {
        (
            Rgb { r: 248, g: 248, b: 252 },
            Rgb { r: 60, g: 60, b: 60 },
            Rgb { r: 40, g: 120, b: 40 },
        )
    };
    let right = sat_sub(w, 15);
    c.fill_rect(15, y_pos, right, y_pos + 35, bg);
    let ghost s1 = *c;
    let separator = Rgb { r: 200, g: 200, b: 210 };
    c.fill_row(y_pos, 15, right, separator);
    let ghost s2 = *c;
    c.fill_row(y_pos + 34, 15, right, separator);
    let ghost s3 = *c;
    let name_text = truncate_ellipsis(name.as_str(), 25, 22);
    c.draw_text(20, y_pos + 8, name_text.as_str(), text_color, 1, 50);
    let value_len = value.as_str().unicode_len();
    let value_x: usize = if w > 200 {
        let span = if value_len > 1500 {
            150
        } else if value_len * 7 + 20 < 150 {
            value_len * 7 + 20
        } else {
            150
        };
        w - span
    } else {
        20
    };
    proof {
        assert(value_x as int == spec_value_x(value@.len() as int, w as int));
    }
    let ghost s5 = *c;
    c.draw_text(value_x, y_pos + 20, value.as_str(), value_color, 1, 50);
    let ghost s6 = *c;
    if w >= 25 {
        let dot = if unavailable {
            Rgb { r: 200, g: 50, b: 50 }
        } else {
            Rgb { r: 50, g: 200, b: 50 }
        };
        c.fill_disc(w - 21, y_pos + 14, 4, 4, dot, dot);
    }
    proof {
        let yi = y_pos as int;
        let wi = old(c).spec_width();
        let hi = old(c).spec_height();
        assert forall|i: int, j: int| old(c).in_bounds(i, j) implies c.px(i, j) == (match
            sensor_row_paint(sensor, yi, wi, hi, i, j) {
            Some(p) => p,
            None => old(c).px(i, j),
        }) by {
            assert(s1.px(i, j) == (if in_rect(15, yi, right as int, yi + 35, i, j) {
                bg
            } else {
                s0.px(i, j)
            }));
            assert(s2.px(i, j) == (if j == yi && 15 <= i < right as int {
                separator
            } else {
                s1.px(i, j)
            }));
            assert(s3.px(i, j) == (if j == yi + 34 && 15 <= i < right as int {
                separator
            } else {
                s2.px(i, j)
            }));
            assert(s5.px(i, j) == (if text_px(name_text@, 20, yi + 8, 1, 50, wi, hi, i, j) {
                text_color
            } else {
                s3.px(i, j)
            }));
            assert(s6.px(i, j) == (if text_px(value@, value_x as int, yi + 20, 1, 50, wi, hi, i, j) {
                value_color
            } else {
                s5.px(i, j)
            }));
        }
        assert forall|i: int, j: int|
            old(c).in_bounds(i, j) && !(y_pos <= j < y_pos + 35) implies c.px(i, j) == old(c).px(
            i,
            j,
        ) by {
            assert(s5.px(i, j) == s0.px(i, j));
            assert(s6.px(i, j) == s5.px(i, j));
        }
    }
}

/// What the first `k` sensor rows paint at `(i, j)`: row `m` starts at
/// `60 + 40*m` and is drawn only when it fits entirely above the bottom
/// padding; later rows lie below earlier ones.
pub open spec fn panel_rows_paint(
    sensors: Seq<EntityRecord>,
    k: int,
    height: int,
    w: int,
    h: int,
    i: int,
    j: int,
) -> Option<Rgb>
    decreases k,
{
    if k <= 0 {
        None
    } else {
        let y = 60 + 40 * (k - 1);
        let cur = if y + 30 < height {
            sensor_row_paint(&sensors[k - 1], y, w, h, i, j)
        } else {
            None
        };
        match cur {
            Some(p) => Some(p),
            None => panel_rows_paint(sensors, k - 1, height, w, h, i, j),
        }
    }
}

/// The finished panel's pixel at `(i, j)`: the sensor rows over the
/// header over the 3px border over the light background gradient.
pub open spec fn panel_paint(
    sensors: Seq<EntityRecord>,
    title: Seq<char>,
    width: int,
    height: int,
    i: int,
    j: int,
) -> Rgb {
    let rows = panel_rows_paint(sensors, sensors.len() as int, height, width, height, i, j);
    if rows is Some {
        rows.unwrap()
    } else if panel_header_paint(title, width, height, i, j) is Some {
        panel_header_paint(title, width, height, i, j).unwrap()
    } else if on_border(0, 0, width, height, 3, i, j) {
        Rgb { r: 80, g: 80, b: 80 }
    } else {
        crate::color::spec_blend(
            Rgb { r: 250, g: 250, b: 255 },
            Rgb { r: 240, g: 240, b: 250 },
            j,
            height,
        )
    }
}

/// The title shown on the panel: the caller's, or the fixed default.
pub open spec fn spec_panel_title(title: Option<&str>) -> Seq<char> {
    match title {
        Some(t) => t@,
        None => "Sensor Status"@,
    }
}

/// Render the multi-sensor panel.
///
/// Rejects an empty list and one of more than ten sensors before any
/// canvas is produced; otherwise every pixel of the canvas is exactly
/// `panel_paint`.
pub fn render_multi_sensor_panel(
    sensors: &Vec<EntityRecord>,
    width: usize,
    height: usize,
    title: Option<&str>,
) -> (r: Result<Canvas<Rgb>, RenderError>)
    requires
        forall|k: int| 0 <= k < sensors@.len() ==> (#[trigger] sensors@[k]).wf(),
        width <= MAX_DIM,
        height <= MAX_DIM,
    ensures
        sensors@.len() == 0 <==> r == Err::<Canvas<Rgb>, RenderError>(RenderError::NoSensors),
        sensors@.len() > MAX_PANEL_SENSORS as int <==> r == Err::<Canvas<Rgb>, RenderError>(
            RenderError::TooManySensors,
        ),
        r is Ok <==> 1 <= sensors@.len() <= MAX_PANEL_SENSORS as int,
        r is Ok ==> r.unwrap().wf() && r.unwrap().spec_width() == width
            && r.unwrap().spec_height() == height,
        r is Ok ==> forall|i: int, j: int|
            r.unwrap().in_bounds(i, j) ==> r.unwrap().px(i, j) == panel_paint(
                sensors@,
                spec_panel_title(title),
                width as int,
                height as int,
                i,
                j,
            ),
{
    let ghost wi = width as int;
    let ghost hi = height as int;
    let n = sensors.len();
    if n == 0 {
        return Err(RenderError::NoSensors);
    }
    if n > MAX_PANEL_SENSORS {
        return Err(RenderError::TooManySensors);
    }
    let mut c = Canvas::new(width, height, Rgb { r: 255, g: 255, b: 255 });
    let ghost s0 = c;
    c.fill_gradient(
        0,
        0,
        width,
        height,
        Rgb { r: 250, g: 250, b: 255 },
        Rgb { r: 240, g: 240, b: 250 },
    );
    let ghost s1 = c;
    draw_border(&mut c);
    let ghost s2 = c;
    let header = match title {
        Some(t) => t,
        None => "Sensor Status",
    };
    draw_multi_sensor_header(&mut c, header);
    let ghost s3 = c;
    proof {
        assert(header@ == spec_panel_title(title));
        assert forall|i: int, j: int| c.in_bounds(i, j) implies c.px(i, j) == (match
            panel_header_paint(spec_panel_title(title), wi, hi, i, j) {
            Some(p) => p,
            None => (if on_border(0, 0, wi, hi, 3, i, j) {
                (Rgb { r: 80, g: 80, b: 80 })
            } else {
                crate::color::spec_blend(
                    Rgb { r: 250, g: 250, b: 255 },
                    Rgb { r: 240, g: 240, b: 250 },
                    j,
                    hi,
                )
            }),
        }) by {
            assert(s1.px(i, j) == (if in_rect(0, 0, wi, hi, i, j) {
                crate::color::spec_blend(
                    Rgb { r: 250, g: 250, b: 255 },
                    Rgb { r: 240, g: 240, b: 250 },
                    j,
                    hi,
                )
            } else {
                s0.px(i, j)
            }));
            assert(s2.px(i, j) == (if on_border(0, 0, wi, hi, 3, i, j) {
                (Rgb { r: 80, g: 80, b: 80 })
            } else {
                s1.px(i, j)
            }));
        }
    }
    let mut i: usize = 0;
    while i < n
        invariant
            c.wf(),
            c.spec_width() == width,
            c.spec_height() == height,
            height <= MAX_DIM,
            n == sensors@.len(),
            n <= MAX_PANEL_SENSORS,
            i <= n,
            forall|k: int| 0 <= k < sensors@.len() ==> (#[trigger] sensors@[k]).wf(),
            s3.same_size(&c),
            forall|i2: int, j2: int|
                c.in_bounds(i2, j2) ==> c.px(i2, j2) == (match panel_rows_paint(
                    sensors@,
                    i as int,
                    height as int,
                    width as int,
                    height as int,
                    i2,
                    j2,
                ) {
                    Some(p) => p,
                    None => s3.px(i2, j2),
                }),
        decreases n - i,
    {
        let y_pos = 60 + i * 40;
        let ghost prev = c;
        let sensor = &sensors[i];
        if y_pos + 30 < height {
            draw_sensor_line(&mut c, y_pos, sensor);
        }
        proof {
            assert(*sensor == sensors@[i as int]);
            assert forall|i2: int, j2: int| c.in_bounds(i2, j2) implies c.px(i2, j2) == (match
                panel_rows_paint(
                sensors@,
                i as int + 1,
                height as int,
                width as int,
                height as int,
                i2,
                j2,
            ) {
                Some(p) => p,
                None => s3.px(i2, j2),
            }) by {
                if y_pos + 30 < height {
                    assert(c.px(i2, j2) == (match sensor_row_paint(
                        sensor,
                        y_pos as int,
                        width as int,
                        height as int,
                        i2,
                        j2,
                    ) {
                        Some(p) => p,
                        None => prev.px(i2, j2),
                    }));
                    assert(sensor_row_paint(sensor, y_pos as int, width as int, height as int, i2, j2)
                        == sensor_row_paint(
                        &sensors@[i as int],
                        y_pos as int,
                        width as int,
                        height as int,
                        i2,
                        j2,
                    ));
                } else {
                    assert(c.px(i2, j2) == prev.px(i2, j2));
                }
            }
        }
        i = i + 1;
    }
    proof {
        assert forall|i2: int, j2: int| c.in_bounds(i2, j2) implies c.px(i2, j2) == panel_paint(
            sensors@,
            spec_panel_title(title),
            wi,
            hi,
            i2,
            j2,
        ) by {
            assert(c.px(i2, j2) == (match panel_rows_paint(sensors@, n as int, hi, wi, hi, i2, j2) {
                Some(p) => p,
                None => s3.px(i2, j2),
            }));
        }
    }
    Ok(c)
}

/// The row-major RGB samples of the finished panel, three bytes per
/// pixel.
pub open spec fn panel_bytes(
    sensors: Seq<EntityRecord>,
    title: Seq<char>,
    w: int,
    h: int,
) -> Seq<u8> {
    Seq::new(
        (3 * w * h) as nat,
        |k: int|
            {
                let p = k / 3;
                let ch = k % 3;
                let px = panel_paint(sensors, title, w, h, p % w, p / w);
                if ch == 0 {
                    px.r
                } else if ch == 1 {
                    px.g
                } else {
                    px.b
                }
            },
    )
}

/// Render the multi-sensor panel and encode it as a PNG byte stream: a
/// successful result is exactly the PNG encoding of the panel's pixels,
/// and rendering a valid list fails only for a zero dimension.
pub fn generate_multi_sensor_image(
    sensors: &Vec<EntityRecord>,
    width: usize,
    height: usize,
    title: Option<&str>,
) -> (r: Result<Vec<u8>, RenderError>)
    requires
        forall|k: int| 0 <= k < sensors@.len() ==> (#[trigger] sensors@[k]).wf(),
        width <= MAX_DIM,
        height <= MAX_DIM,
    ensures
        sensors@.len() == 0 <==> r == Err::<Vec<u8>, RenderError>(RenderError::NoSensors),
        sensors@.len() > MAX_PANEL_SENSORS as int <==> r == Err::<Vec<u8>, RenderError>(
            RenderError::TooManySensors,
        ),
        1 <= sensors@.len() <= MAX_PANEL_SENSORS as int ==> (r is Ok || r == Err::<
            Vec<u8>,
            RenderError,
        >(RenderError::EncodingFailed)),
        1 <= sensors@.len() <= MAX_PANEL_SENSORS as int && width > 0 && height > 0 ==> r is Ok,
        r is Ok ==> r.unwrap()@ == rgb_png_bytes(
            width as int,
            height as int,
            panel_bytes(sensors@, spec_panel_title(title), width as int, height as int),
        ),
{
    let c = match render_multi_sensor_panel(sensors, width, height, title) {
        Ok(c) => c,
        Err(e) => {
            return Err(e);
        },
    };
    match encode_canvas_png(&c) {
        Some(bytes) => {
            proof {
                let wi = width as int;
                let hi = height as int;
                let t = spec_panel_title(title);
                assert(crate::png::spec_rgb_bytes(&c) =~= panel_bytes(sensors@, t, wi, hi)) by {
                    assert forall|k: int| 0 <= k < 3 * wi * hi implies crate::png::spec_rgb_bytes(
                        &c,
                    )[k] == panel_bytes(sensors@, t, wi, hi)[k] by {
                        if wi > 0 {
                            let p = k / 3;
                            vstd::arithmetic::div_mod::lemma_fundamental_div_mod(k, 3);
                            vstd::arithmetic::div_mod::lemma_fundamental_div_mod(p, wi);
                            assert(0 <= p < wi * hi) by (nonlinear_arith)
                                requires
                                    0 <= k < 3 * wi * hi,
                                    p == k / 3,
                                    k == 3 * p + k % 3,
                                    0 <= k % 3 < 3,
                            ;
                            assert(0 <= p % wi < wi && 0 <= p / wi < hi) by (nonlinear_arith)
                                requires
                                    0 <= p < wi * hi,
                                    wi > 0,
                                    p == wi * (p / wi) + p % wi,
                                    0 <= p % wi < wi,
                            ;
                            assert(c.px(p % wi, p / wi) == panel_paint(
                                sensors@,
                                t,
                                wi,
                                hi,
                                p % wi,
                                p / wi,
                            ));
                            let ch = k % 3;
                            if ch == 0 {
                                assert(crate::png::spec_rgb_bytes(&c)[k] == c.px(p % wi, p / wi).r);
                                assert(panel_bytes(sensors@, t, wi, hi)[k] == panel_paint(
                                    sensors@,
                                    t,
                                    wi,
                                    hi,
                                    p % wi,
                                    p / wi,
                                ).r);
                            } else if ch == 1 {
                                assert(crate::png::spec_rgb_bytes(&c)[k] == c.px(p % wi, p / wi).g);
                                assert(panel_bytes(sensors@, t, wi, hi)[k] == panel_paint(
                                    sensors@,
                                    t,
                                    wi,
                                    hi,
                                    p % wi,
                                    p / wi,
                                ).g);
                            } else {
                                assert(crate::png::spec_rgb_bytes(&c)[k] == c.px(p % wi, p / wi).b);
                                assert(panel_bytes(sensors@, t, wi, hi)[k] == panel_paint(
                                    sensors@,
                                    t,
                                    wi,
                                    hi,
                                    p % wi,
                                    p / wi,
                                ).b);
                            }
                        } else {
                            assert(3 * wi * hi <= 0) by (nonlinear_arith)
                                requires
                                    wi <= 0,
                                    hi >= 0,
                            ;
                        }
                    }
                }
            }
            Ok(bytes)
        },
        None => Err(RenderError::EncodingFailed),
    }
}

} // verus!
