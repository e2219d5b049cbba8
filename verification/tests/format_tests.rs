use panel_render::color::{classify_state, ColorClass};
use panel_render::entity::{AttrValue, EntityRecord};
use panel_render::format::{format_entity_status, format_sensor_value, is_percentage_sensor};
use panel_render::numfmt::Dec;

fn entity(id: &str, state: &str, attrs: Vec<(&str, AttrValue)>) -> EntityRecord {
    EntityRecord {
        id: String::from(id),
        state: String::from(state),
        attributes: attrs.into_iter().map(|(k, v)| (String::from(k), v)).collect(),
    }
}

fn with_unit(id: &str, state: &str, unit: &str) -> EntityRecord {
    entity(
        id,
        state,
        vec![("unit_of_measurement", AttrValue::Text(String::from(unit)))],
    )
}

#[test]
fn percent_unit_formats_rounded_percentage() {
    let e = with_unit("sensor.batt", "73", "%");
    assert_eq!(format_sensor_value(&e), "73%");
}

#[test]
fn energy_unit_formats_one_decimal() {
    let e = with_unit("sensor.energy", "12.5", "kWh");
    assert_eq!(format_sensor_value(&e), "12.5 kWh");
}

#[test]
fn whole_number_drops_decimals() {
    let e = with_unit("sensor.plain", "12.0", "");
    assert_eq!(format_sensor_value(&e), "12");
}

#[test]
fn unparseable_state_passes_through() {
    let e = with_unit("sensor.odd", "n/a", "");
    assert_eq!(format_sensor_value(&e), "n/a");
}

#[test]
fn unavailable_state_wins() {
    let e = with_unit("sensor.gone", "unavailable", "%");
    assert_eq!(format_sensor_value(&e), "Unavailable");
}

#[test]
fn percentage_rounds_half_away_from_zero() {
    let e = with_unit("sensor.batt", "73.5", "%");
    assert_eq!(format_sensor_value(&e), "74%");
    let e2 = with_unit("sensor.batt", "73.4", "%");
    assert_eq!(format_sensor_value(&e2), "73%");
}

#[test]
fn percent_requires_exact_unit() {
    // A kW discharge sensor must not be treated as a percentage.
    let e = with_unit("sensor.battery_discharge", "2.5", "kW");
    assert!(!is_percentage_sensor(&e));
    let p = with_unit("sensor.batt", "50", "%");
    assert!(is_percentage_sensor(&p));
}

#[test]
fn fractional_value_keeps_one_decimal() {
    let e = with_unit("sensor.temp", "21.57", "C");
    assert_eq!(format_sensor_value(&e), "21.6 C");
}

#[test]
fn binary_sensor_on_is_detected() {
    let e = entity("binary_sensor.door", "on", vec![]);
    assert_eq!(format_entity_status(&e), "DETECTED");
}

#[test]
fn binary_sensor_off_is_clear() {
    let e = entity("binary_sensor.door", "off", vec![]);
    assert_eq!(format_entity_status(&e), "CLEAR");
}

#[test]
fn binary_sensor_unmapped_state_uppercases() {
    let e = entity("binary_sensor.door", "tilted", vec![]);
    assert_eq!(format_entity_status(&e), "State: TILTED");
}

#[test]
fn numeric_sensor_status_line() {
    let e = entity("sensor.count", "73", vec![]);
    assert_eq!(format_entity_status(&e), "Value: 73.0");
    let u = with_unit("sensor.energy", "12.5", "kWh");
    assert_eq!(format_entity_status(&u), "12.5 kWh");
}

#[test]
fn switch_maps_on_off() {
    assert_eq!(format_entity_status(&entity("switch.x", "on", vec![])), "ON");
    assert_eq!(format_entity_status(&entity("light.x", "OFF", vec![])), "OFF");
    assert_eq!(
        format_entity_status(&entity("fan.x", "whirring", vec![])),
        "State: WHIRRING"
    );
}

#[test]
fn presence_maps_home_away() {
    assert_eq!(
        format_entity_status(&entity("person.ann", "home", vec![])),
        "AT HOME"
    );
    assert_eq!(
        format_entity_status(&entity("device_tracker.car", "not_home", vec![])),
        "AWAY"
    );
    assert_eq!(
        format_entity_status(&entity("person.ann", "work", vec![])),
        "Location: WORK"
    );
}

#[test]
fn climate_prefers_current_temperature() {
    let e = entity(
        "climate.living",
        "heat",
        vec![(
            "current_temperature",
            AttrValue::Num(Dec { neg: false, milli: 21_500 }),
        )],
    );
    assert_eq!(format_entity_status(&e), "Temp: 21.5\u{b0}C");
    let m = entity("climate.living", "heat", vec![]);
    assert_eq!(format_entity_status(&m), "Mode: HEAT");
}

#[test]
fn weather_combines_state_and_temperature() {
    let e = entity(
        "weather.home",
        "cloudy",
        vec![
            ("temperature", AttrValue::Num(Dec { neg: false, milli: 18_300 })),
            ("temperature_unit", AttrValue::Text(String::from("\u{b0}F"))),
        ],
    );
    assert_eq!(format_entity_status(&e), "CLOUDY - 18.3\u{b0}F");
    let m = entity("weather.home", "rainy", vec![]);
    assert_eq!(format_entity_status(&m), "Weather: RAINY");
}

#[test]
fn media_player_states() {
    assert_eq!(
        format_entity_status(&entity("media_player.tv", "playing", vec![])),
        "PLAYING"
    );
    assert_eq!(
        format_entity_status(&entity("media_player.tv", "paused", vec![])),
        "PAUSED"
    );
    assert_eq!(
        format_entity_status(&entity("media_player.tv", "idle", vec![])),
        "IDLE"
    );
}

#[test]
fn unknown_domain_falls_back() {
    assert_eq!(
        format_entity_status(&entity("cover.garage", "ajar", vec![])),
        "State: ajar"
    );
    let u = with_unit("cover.garage", "ajar", "cm");
    assert_eq!(format_entity_status(&u), "ajar cm");
}

#[test]
fn classification_is_case_insensitive_and_total() {
    assert_eq!(classify_state("HOME"), ColorClass::Positive);
    assert_eq!(classify_state("AWAY"), ColorClass::Negative);
    assert_eq!(classify_state("unknown"), ColorClass::Unavailable);
    assert_eq!(classify_state("sometimes"), ColorClass::Neutral);
    assert_eq!(classify_state("Detected"), ColorClass::Positive);
    assert_eq!(classify_state("Clear"), ColorClass::Negative);
    assert_eq!(classify_state("UNAVAILABLE"), ColorClass::Unavailable);
    assert_eq!(classify_state(""), ColorClass::Neutral);
}
