use panel_render::card::{generate_status_image, render_status_card};
use panel_render::color::Rgb;
use panel_render::entity::{AttrValue, EntityRecord};
use panel_render::epaper::{generate_trmnl_image, render_epaper_panel};
use panel_render::format::format_entity_status;
use panel_render::panel::{generate_multi_sensor_image, render_multi_sensor_panel};
use panel_render::quantize::quantize;
use panel_render::RenderError;

fn entity(id: &str, state: &str, attrs: Vec<(&str, AttrValue)>) -> EntityRecord {
    EntityRecord {
        id: String::from(id),
        state: String::from(state),
        attributes: attrs.into_iter().map(|(k, v)| (String::from(k), v)).collect(),
    }
}

fn sensors(n: usize) -> Vec<EntityRecord> {
    (0..n)
        .map(|i| entity(&format!("sensor.s{i}"), "1", vec![]))
        .collect()
}

#[test]
fn multi_sensor_panel_rejects_eleven_sensors() {
    let many = sensors(11);
    assert_eq!(
        render_multi_sensor_panel(&many, 500, 540, None).err(),
        Some(RenderError::TooManySensors)
    );
    assert_eq!(
        generate_multi_sensor_image(&many, 500, 540, None).err(),
        Some(RenderError::TooManySensors)
    );
    assert!(render_multi_sensor_panel(&sensors(10), 500, 540, None).is_ok());
}

#[test]
fn epaper_panel_rejects_sixteen_sensors() {
    let many = sensors(16);
    assert_eq!(
        render_epaper_panel(&many, None).err(),
        Some(RenderError::TooManySensors)
    );
    assert_eq!(
        generate_trmnl_image(&many, None).err(),
        Some(RenderError::TooManySensors)
    );
    assert!(render_epaper_panel(&sensors(15), None).is_ok());
}

#[test]
fn empty_sensor_lists_are_rejected() {
    let none: Vec<EntityRecord> = vec![];
    assert_eq!(
        render_multi_sensor_panel(&none, 500, 200, None).err(),
        Some(RenderError::NoSensors)
    );
    assert_eq!(generate_trmnl_image(&none, None).err(), Some(RenderError::NoSensors));
}

#[test]
fn zero_size_panel_fails_encoding() {
    assert_eq!(
        generate_multi_sensor_image(&sensors(1), 0, 0, None).err(),
        Some(RenderError::EncodingFailed)
    );
}

#[test]
fn status_card_end_to_end() {
    let e = entity(
        "binary_sensor.door",
        "on",
        vec![("friendly_name", AttrValue::Text(String::from("Front Door")))],
    );
    assert_eq!(format_entity_status(&e), "DETECTED");
    let c = render_status_card(&e, 400, 200);
    assert_eq!(c.width(), 400);
    assert_eq!(c.height(), 200);
    // Background between bands: green-tinted gradient for a Positive state.
    assert_eq!(c.get_pixel(5, 44), Rgb { r: 223, g: 255, b: 223 });
    // Status band interior: the Positive gradient two rows in.
    assert_eq!(c.get_pixel(10, 50), Rgb { r: 78, g: 178, b: 78 });
    // Header band interior: the dark header gradient two rows in.
    assert_eq!(c.get_pixel(10, 10), Rgb { r: 58, g: 58, b: 78 });
    let p = c.get_pixel(10, 50);
    assert!(p.g > p.r && p.g > p.b);
}

#[test]
fn status_card_png_round_trip() {
    let e = entity(
        "binary_sensor.door",
        "on",
        vec![("friendly_name", AttrValue::Text(String::from("Front Door")))],
    );
    let c = render_status_card(&e, 400, 200);
    let bytes = generate_status_image(&e, 400, 200).expect("png encoding");
    assert_eq!(&bytes[..8], &[137u8, 80, 78, 71, 13, 10, 26, 10]);
    let img = image::load_from_memory(&bytes).expect("decode").to_rgb8();
    assert_eq!(img.width(), 400);
    assert_eq!(img.height(), 200);
    for (x, y) in [(5usize, 44usize), (10, 50), (200, 100), (399, 199)] {
        let got = img.get_pixel(x as u32, y as u32);
        let want = c.get_pixel(x, y);
        assert_eq!([got[0], got[1], got[2]], [want.r, want.g, want.b], "at {x},{y}");
    }
}

#[test]
fn epaper_gauge_fill_width_and_quantization() {
    let e = entity(
        "sensor.humidity",
        "42",
        vec![("unit_of_measurement", AttrValue::Text(String::from("%")))],
    );
    let c = render_epaper_panel(&vec![e.clone()], None).expect("render");
    assert_eq!(c.width(), 800);
    assert_eq!(c.height(), 480);
    // One sensor: row at y 80, gauge at (480, 110), interior from (483, 113).
    // fill width = round(194 * 0.42) = 81, so columns 483..564 carry the
    // medium checker pattern and columns from 564 stay white.
    assert_eq!(c.get_pixel(563, 113), 0); // (563 + 113) even, inside fill
    assert_eq!(c.get_pixel(565, 113), 255); // would be patterned if filled
    assert_eq!(c.get_pixel(562, 114), 0);
    assert_eq!(c.get_pixel(564, 114), 255); // first column past the fill
    // Gauge border and a tick mark.
    assert_eq!(c.get_pixel(480, 110), 0);
    assert_eq!(c.get_pixel(531, 108), 0);
    // Header top rule and the gap above the first row.
    assert_eq!(c.get_pixel(400, 10), 0);
    assert_eq!(c.get_pixel(400, 70), 255);
    let q = quantize(&c, 128);
    for y in 0..480 {
        for x in 0..800 {
            let p = q.get_pixel(x, y);
            assert!(p == 0 || p == 255);
        }
    }
}

#[test]
fn epaper_gauge_density_bands() {
    // Below 25%: sparse checker. fill width = round(194 * 0.10) = 19.
    let low = entity(
        "sensor.batt",
        "10",
        vec![("unit_of_measurement", AttrValue::Text(String::from("%")))],
    );
    let c = render_epaper_panel(&vec![low], None).expect("render");
    for x in 483..502 {
        for y in 113..123 {
            let expect = if (x + y) % 4 == 0 { 0 } else { 255 };
            assert_eq!(c.get_pixel(x, y), expect, "at {x},{y}");
        }
    }
    // At or above 75%: solid fill. fill width = round(194 * 0.90) = 175.
    let high = entity(
        "sensor.batt",
        "90",
        vec![("unit_of_measurement", AttrValue::Text(String::from("%")))],
    );
    let c2 = render_epaper_panel(&vec![high], None).expect("render");
    for x in 483..658 {
        for y in 113..123 {
            assert_eq!(c2.get_pixel(x, y), 0, "at {x},{y}");
        }
    }
    assert_eq!(c2.get_pixel(658, 113), 255);
}

#[test]
fn epaper_png_is_one_bit() {
    let e = entity(
        "sensor.humidity",
        "42",
        vec![("unit_of_measurement", AttrValue::Text(String::from("%")))],
    );
    let bytes = generate_trmnl_image(&vec![e], None).expect("png encoding");
    let img = image::load_from_memory(&bytes).expect("decode").to_luma8();
    assert_eq!(img.width(), 800);
    assert_eq!(img.height(), 480);
    let mut blacks = 0usize;
    let mut whites = 0usize;
    for p in img.pixels() {
        assert!(p[0] == 0 || p[0] == 255);
        if p[0] == 0 {
            blacks += 1;
        } else {
            whites += 1;
        }
    }
    assert!(blacks > 0 && whites > 0);
}

#[test]
fn panel_rows_that_do_not_fit_are_skipped_whole() {
    // With height 160, rows at y=90 and y=130 fit (y+30 < 160) but the
    // third row at y=140 does not, so its band keeps the background
    // gradient: blend((250,250,255),(240,240,250), 142/160).
    let list = sensors(3);
    let c = render_multi_sensor_panel(&list, 400, 160, None).expect("render");
    assert_eq!(c.get_pixel(100, 142), Rgb { r: 241, g: 241, b: 250 });
    // The second row's band was drawn: its shaded background, not the
    // gradient, at an undecorated pixel.
    assert_eq!(c.get_pixel(100, 105), Rgb { r: 248, g: 248, b: 252 });
}

#[test]
fn epaper_row_height_shrinks_past_six_sensors() {
    // Eight sensors: row height min(55, 380/8) = 47; the second row
    // starts at y = 127, so its separator sits at y = 172.
    let list = sensors(8);
    let c = render_epaper_panel(&list, None).expect("render");
    assert_eq!(c.get_pixel(100, 127 + 45), 200);
    // One sensor: fixed 65px rows put the separator at y = 143.
    let one = sensors(1);
    let c1 = render_epaper_panel(&one, None).expect("render");
    assert_eq!(c1.get_pixel(100, 143), 200);
}

#[test]
fn multi_sensor_panel_end_to_end() {
    let list = vec![
        entity("sensor.temp", "21.5", vec![(
            "unit_of_measurement",
            AttrValue::Text(String::from("C")),
        )]),
        entity("sensor.gone", "unavailable", vec![]),
    ];
    let c = render_multi_sensor_panel(&list, 500, 200, Some("Home")).expect("render");
    assert_eq!(c.width(), 500);
    assert_eq!(c.height(), 200);
    let bytes = generate_multi_sensor_image(&list, 500, 200, Some("Home")).expect("png");
    let img = image::load_from_memory(&bytes).expect("decode").to_rgb8();
    assert_eq!(img.width(), 500);
    assert_eq!(img.height(), 200);
}
