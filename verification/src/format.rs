//! Semantic value formatting: the short display string for a sensor value
//! and the richer per-domain status line.

use vstd::prelude::*;

use crate::entity::{spec_attr_num, spec_attr_str, spec_domain, EntityRecord};
use crate::numfmt::{
    auto_chars, int_chars, one_dec_chars, parse_decimal, render_auto, render_int_rounded,
    render_one_dec, spec_parse_decimal, spec_round_units, Dec,
};
use crate::strutil::{lower, str_eq, to_lower, to_upper, upper};

verus! {

/// The unit attribute of an entity, or empty when absent or not a string.
pub open spec fn spec_unit(e: &EntityRecord) -> Seq<char> {
    match spec_attr_str(e.attributes@, "unit_of_measurement"@) {
        Some(u) => u,
        None => Seq::empty(),
    }
}

/// Percentage classification: the unit is exactly `"%"`. An exact match is
/// required, not a substring, so that units such as `"kW"` on a discharge
/// sensor are never mistaken for percentages.
pub open spec fn spec_is_percentage(e: &EntityRecord) -> bool {
    spec_unit(e) == "%"@
}

pub fn is_percentage_sensor(e: &EntityRecord) -> (r: bool)
    ensures
        r == spec_is_percentage(e),
{
    match e.attr_str("unit_of_measurement") {
        Some(u) => str_eq(u.as_str(), "%"),
        None => {
            proof {
                reveal_strlit("%");
                assert(spec_unit(e).len() == 0);
            }
            false
        },
    }
}

/// The short display string for a sensor value.
///
/// The unavailable sentinel wins; then an exact-`"%"` unit formats the
/// parsed number rounded to whole percent; then a parsed number is shown
/// whole or with one fractional digit, the unit appended after a space;
/// unparseable states fall back to the raw state with the unit appended.
pub open spec fn spec_format_value(e: &EntityRecord) -> Seq<char> {
    if e.state@ == "unavailable"@ {
        "Unavailable"@
    } else {
        let unit = spec_unit(e);
        match spec_parse_decimal(e.state@) {
            Some(d) => {
                if unit == "%"@ {
                    int_chars(spec_round_units(d)) + "%"@
                } else if unit.len() == 0 {
                    auto_chars(d)
                } else {
                    auto_chars(d) + " "@ + unit
                }
            },
            None => {
                if unit.len() == 0 {
                    e.state@
                } else {
                    e.state@ + " "@ + unit
                }
            },
        }
    }
}

/// Format a sensor's value for display (`spec_format_value`).
pub fn format_sensor_value(e: &EntityRecord) -> (r: String)
    requires
        e.wf(),
    ensures
        r@ == spec_format_value(e),
{
    proof {
        reveal_strlit("%");
        assert("%"@.len() == 1);
    }
    if str_eq(e.state.as_str(), "unavailable") {
        return String::from_str("Unavailable");
    }
    let parsed = parse_decimal(e.state.as_str());
    match e.attr_str("unit_of_measurement") {
        Some(u) => {
            match parsed {
                Some(d) => {
                    if str_eq(u.as_str(), "%") {
                        let mut s = render_int_rounded(d);
                        s.push('%');
                        proof {
                            assert(s@ =~= int_chars(spec_round_units(d)) + "%"@);
                        }
                        s
                    } else if u.as_str().unicode_len() == 0 {
                        render_auto(d)
                    } else {
                        let mut s = render_auto(d);
                        s.append(" ");
                        s.append(u.as_str());
                        s
                    }
                },
                None => {
                    if u.as_str().unicode_len() == 0 {
                        e.state.clone()
                    } else {
                        let mut s = e.state.clone();
                        s.append(" ");
                        s.append(u.as_str());
                        s
                    }
                },
            }
        },
        None => {
            proof {
                assert(spec_unit(e).len() == 0);
            }
            match parsed {
                Some(d) => render_auto(d),
                None => e.state.clone(),
            }
        },
    }
}

/// The richer status label, dispatched on the domain prefix of the id.
///
/// Numeric sensors show `Value: X.Y` or `X.Y unit`; switch-like domains
/// map on/off to `ON`/`OFF`; binary sensors to `DETECTED`/`CLEAR`;
/// presence domains to `AT HOME`/`AWAY`; climate prefers the current
/// temperature attribute and weather its temperature attribute; media
/// players map their transport states to fixed labels. Every unmapped
/// state falls back to an upper-cased generic label.
pub open spec fn spec_format_status_line(e: &EntityRecord) -> Seq<char> {
    let domain = spec_domain(e.id@);
    let state = e.state@;
    let unit = spec_unit(e);
    let l = lower(state);
    if domain == "sensor"@ {
        match spec_parse_decimal(state) {
            Some(d) => {
                if unit.len() == 0 {
                    "Value: "@ + one_dec_chars(d)
                } else {
                    one_dec_chars(d) + " "@ + unit
                }
            },
            None => "State: "@ + state,
        }
    } else if domain == "switch"@ || domain == "light"@ || domain == "fan"@ {
        if l == "on"@ {
            "ON"@
        } else if l == "off"@ {
            "OFF"@
        } else {
            "State: "@ + upper(state)
        }
    } else if domain == "binary_sensor"@ {
        if l == "on"@ {
            "DETECTED"@
        } else if l == "off"@ {
            "CLEAR"@
        } else {
            "State: "@ + upper(state)
        }
    } else if domain == "device_tracker"@ || domain == "person"@ {
        if l == "home"@ {
            "AT HOME"@
        } else if l == "not_home"@ {
            "AWAY"@
        } else {
            "Location: "@ + upper(state)
        }
    } else if domain == "climate"@ {
        match spec_attr_num(e.attributes@, "current_temperature"@) {
            Some(t) => {
                let u = match spec_attr_str(e.attributes@, "unit_of_measurement"@) {
                    Some(x) => x,
                    None => "\u{b0}C"@,
                };
                "Temp: "@ + one_dec_chars(t) + u
            },
            None => "Mode: "@ + upper(state),
        }
    } else if domain == "weather"@ {
        match spec_attr_num(e.attributes@, "temperature"@) {
            Some(t) => {
                let u = match spec_attr_str(e.attributes@, "temperature_unit"@) {
                    Some(x) => x,
                    None => "\u{b0}C"@,
                };
                upper(state) + " - "@ + one_dec_chars(t) + u
            },
            None => "Weather: "@ + upper(state),
        }
    } else if domain == "media_player"@ {
        if l == "playing"@ {
            "PLAYING"@
        } else if l == "paused"@ {
            "PAUSED"@
        } else if l == "idle"@ {
            "IDLE"@
        } else if l == "off"@ {
            "OFF"@
        } else {
            "State: "@ + upper(state)
        }
    } else {
        if unit.len() == 0 {
            "State: "@ + state
        } else {
            state + " "@ + unit
        }
    }
}

fn upper_with_prefix(prefix: &str, state: &str) -> (r: String)
    ensures
        r@ == prefix@ + upper(state@),
{
    let mut s = String::from_str(prefix);
    let up = to_upper(state);
    s.append(up.as_str());
    s
}

/// Format the status line of an entity (`spec_format_status_line`).
pub fn format_entity_status(e: &EntityRecord) -> (r: String)
    requires
        e.wf(),
    ensures
        r@ == spec_format_status_line(e),
{
    let domain = e.domain();
    let d = domain.as_str();
    let state = e.state.as_str();
    if str_eq(d, "sensor") {
        match parse_decimal(state) {
            Some(v) => {
                let digits = render_one_dec(v);
                match e.attr_str("unit_of_measurement") {
                    Some(u) => {
                        if u.as_str().unicode_len() == 0 {
                            let mut s = String::from_str("Value: ");
                            s.append(digits.as_str());
                            s
                        } else {
                            let mut s = digits;
                            s.append(" ");
                            s.append(u.as_str());
                            s
                        }
                    },
                    None => {
                        proof {
                            assert(spec_unit(e).len() == 0);
                        }
                        let mut s = String::from_str("Value: ");
                        s.append(digits.as_str());
                        s
                    },
                }
            },
            None => {
                let mut s = String::from_str("State: ");
                s.append(state);
                s
            },
        }
    } else if str_eq(d, "switch") || str_eq(d, "light") || str_eq(d, "fan") {
        let l = to_lower(state);
        if str_eq(l.as_str(), "on") {
            String::from_str("ON")
        } else if str_eq(l.as_str(), "off") {
            String::from_str("OFF")
        } else {
            upper_with_prefix("State: ", state)
        }
    } else if str_eq(d, "binary_sensor") {
        let l = to_lower(state);
        if str_eq(l.as_str(), "on") {
            String::from_str("DETECTED")
        } else if str_eq(l.as_str(), "off") {
            String::from_str("CLEAR")
        } else {
            upper_with_prefix("State: ", state)
        }
    } else if str_eq(d, "device_tracker") || str_eq(d, "person") {
        let l = to_lower(state);
        if str_eq(l.as_str(), "home") {
            String::from_str("AT HOME")
        } else if str_eq(l.as_str(), "not_home") {
            String::from_str("AWAY")
        } else {
            upper_with_prefix("Location: ", state)
        }
    } else if str_eq(d, "climate") {
        match e.attr_num("current_temperature") {
            Some(t) => {
                let mut s = String::from_str("Temp: ");
                let digits = render_one_dec(t);
                s.append(digits.as_str());
                match e.attr_str("unit_of_measurement") {
                    Some(u) => {
                        s.append(u.as_str());
                    },
                    None => {
                        s.append("\u{b0}C");
                    },
                }
                s
            },
            None => upper_with_prefix("Mode: ", state),
        }
    } else if str_eq(d, "weather") {
        match e.attr_num("temperature") {
            Some(t) => {
                let mut s = to_upper(state);
                s.append(" - ");
                let digits = render_one_dec(t);
                s.append(digits.as_str());
                match e.attr_str("temperature_unit") {
                    Some(u) => {
                        s.append(u.as_str());
                    },
                    None => {
                        s.append("\u{b0}C");
                    },
                }
                s
            },
            None => upper_with_prefix("Weather: ", state),
        }
    } else if str_eq(d, "media_player") {
        let l = to_lower(state);
        if str_eq(l.as_str(), "playing") {
            String::from_str("PLAYING")
        } else if str_eq(l.as_str(), "paused") {
            String::from_str("PAUSED")
        } else if str_eq(l.as_str(), "idle") {
            String::from_str("IDLE")
        } else if str_eq(l.as_str(), "off") {
            String::from_str("OFF")
        } else {
            upper_with_prefix("State: ", state)
        }
    } else {
        match e.attr_str("unit_of_measurement") {
            Some(u) => {
                if u.as_str().unicode_len() == 0 {
                    let mut s = String::from_str("State: ");
                    s.append(state);
                    s
                } else {
                    let mut s = String::from_str(state);
                    s.append(" ");
                    s.append(u.as_str());
                    s
                }
            },
            None => {
                proof {
                    assert(spec_unit(e).len() == 0);
                }
                let mut s = String::from_str("State: ");
                s.append(state);
                s
            },
        }
    }
}

} // verus!
