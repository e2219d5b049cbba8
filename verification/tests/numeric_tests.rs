use panel_render::entity::{is_camera_entity, parse_sensor_list, resolve_url, EntityRecord};
use panel_render::numfmt::{
    parse_decimal, render_auto, render_int_rounded, render_one_dec, render_plain, Dec,
};
use panel_render::panel::default_panel_height;
use panel_render::strutil::{str_eq, to_lower, to_upper, trim_str, truncate_ellipsis};

fn dec(neg: bool, milli: u64) -> Dec {
    Dec { neg, milli }
}

#[test]
fn parses_integers_and_decimals() {
    assert_eq!(parse_decimal("73"), Some(dec(false, 73_000)));
    assert_eq!(parse_decimal("12.5"), Some(dec(false, 12_500)));
    assert_eq!(parse_decimal("-12.5"), Some(dec(true, 12_500)));
    assert_eq!(parse_decimal("+0.5"), Some(dec(false, 500)));
    assert_eq!(parse_decimal(".5"), Some(dec(false, 500)));
    assert_eq!(parse_decimal("5."), Some(dec(false, 5_000)));
    assert_eq!(parse_decimal("0"), Some(dec(false, 0)));
    assert_eq!(parse_decimal("-0"), Some(dec(false, 0)));
    assert_eq!(parse_decimal("1.2345"), Some(dec(false, 1_234)));
}

#[test]
fn rejects_malformed_numerals() {
    assert_eq!(parse_decimal(""), None);
    assert_eq!(parse_decimal("-"), None);
    assert_eq!(parse_decimal("."), None);
    assert_eq!(parse_decimal("n/a"), None);
    assert_eq!(parse_decimal("1e5"), None);
    assert_eq!(parse_decimal("1.2.3"), None);
    assert_eq!(parse_decimal(" 5"), None);
    assert_eq!(parse_decimal("12a"), None);
    // Beyond the supported integer range.
    assert_eq!(parse_decimal("10000000000000"), None);
    assert_eq!(parse_decimal("1000000000000"), Some(dec(false, 1_000_000_000_000_000)));
}

#[test]
fn renders_fixed_point_values() {
    assert_eq!(render_int_rounded(dec(false, 73_500)), "74");
    assert_eq!(render_int_rounded(dec(true, 73_500)), "-74");
    assert_eq!(render_int_rounded(dec(true, 400)), "0");
    assert_eq!(render_one_dec(dec(false, 12_500)), "12.5");
    assert_eq!(render_one_dec(dec(false, 12_960)), "13.0");
    assert_eq!(render_one_dec(dec(true, 40)), "-0.0");
    assert_eq!(render_auto(dec(false, 12_000)), "12");
    assert_eq!(render_auto(dec(false, 12_500)), "12.5");
    assert_eq!(render_plain(dec(false, 12_000)), "12");
    assert_eq!(render_plain(dec(false, 12_100)), "12.1");
    assert_eq!(render_plain(dec(false, 12_010)), "12.01");
    assert_eq!(render_plain(dec(true, 12_345)), "-12.345");
}

#[test]
fn splits_and_trims_sensor_lists() {
    let ids = parse_sensor_list(" a, b ,,c ");
    assert_eq!(ids, vec![String::from("a"), String::from("b"), String::from("c")]);
    assert_eq!(parse_sensor_list(""), Vec::<String>::new());
    assert_eq!(parse_sensor_list(" , ,"), Vec::<String>::new());
    assert_eq!(
        parse_sensor_list("sensor.one,sensor.two"),
        vec![String::from("sensor.one"), String::from("sensor.two")]
    );
}

#[test]
fn string_helpers() {
    assert_eq!(trim_str("  x y\t"), "x y");
    assert_eq!(to_lower("AbC1"), "abc1");
    assert_eq!(to_upper("abC1"), "ABC1");
    assert!(str_eq("same", "same"));
    assert!(!str_eq("same", "sam"));
    assert_eq!(truncate_ellipsis("short", 25, 22), "short");
    assert_eq!(
        truncate_ellipsis("a-name-well-beyond-twenty-five-chars", 25, 22),
        "a-name-well-beyond-twe..."
    );
}

#[test]
fn domain_and_urls() {
    let e = EntityRecord {
        id: String::from("binary_sensor.door"),
        state: String::from("on"),
        attributes: vec![],
    };
    assert_eq!(e.domain(), "binary_sensor");
    let no_dot = EntityRecord {
        id: String::from("nodot"),
        state: String::from("x"),
        attributes: vec![],
    };
    assert_eq!(no_dot.domain(), "nodot");
    assert!(is_camera_entity("camera.front"));
    assert!(!is_camera_entity("sensor.front"));
    assert_eq!(
        resolve_url("http://hub:8123", "/api/image/1"),
        "http://hub:8123/api/image/1"
    );
    assert_eq!(resolve_url("http://hub:8123", "https://x/y.jpg"), "https://x/y.jpg");
}

#[test]
fn panel_height_formula() {
    assert_eq!(default_panel_height(3), 80 + 40 * 3 + 20);
    assert_eq!(default_panel_height(10), 500);
}
