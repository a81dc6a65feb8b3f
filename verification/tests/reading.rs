use batwatch::reading::{classify_status, effective_percentage, parse_level, SourceReading, SourceState};

fn reading(state: SourceState, level: u8) -> SourceReading {
    SourceReading { state, level }
}

#[test]
fn all_charging_or_full_gives_100() {
    let readings = vec![
        reading(SourceState::Charging, 40),
        reading(SourceState::Full, 5),
        reading(SourceState::Charging, 0),
    ];
    assert_eq!(effective_percentage(&readings), 100);
}

#[test]
fn all_discharging_gives_max() {
    let readings = vec![
        reading(SourceState::Discharging, 40),
        reading(SourceState::Unknown, 70),
        reading(SourceState::Discharging, 10),
    ];
    assert_eq!(effective_percentage(&readings), 70);
}

#[test]
fn single_discharging_gives_its_level() {
    let readings = vec![reading(SourceState::Discharging, 33)];
    assert_eq!(effective_percentage(&readings), 33);
}

#[test]
fn no_readings_give_zero() {
    let readings: Vec<SourceReading> = Vec::new();
    assert_eq!(effective_percentage(&readings), 0);
}

#[test]
fn one_charging_source_overrides_discharging_levels() {
    let readings = vec![
        reading(SourceState::Discharging, 12),
        reading(SourceState::Charging, 0),
        reading(SourceState::Discharging, 47),
    ];
    assert_eq!(effective_percentage(&readings), 100);
}

#[test]
fn unrecognized_state_forces_full_charge() {
    let readings = vec![
        reading(SourceState::Discharging, 4),
        reading(SourceState::Other, 0),
    ];
    assert_eq!(effective_percentage(&readings), 100);
}

#[test]
fn classify_recognized_tokens() {
    assert_eq!(classify_status("Charging\n"), SourceState::Charging);
    assert_eq!(classify_status("Full\n"), SourceState::Full);
    assert_eq!(classify_status("Discharging\n"), SourceState::Discharging);
    assert_eq!(classify_status("Unknown\n"), SourceState::Unknown);
}

#[test]
fn classify_unrecognized_tokens() {
    assert_eq!(classify_status("Hibernating\n"), SourceState::Other);
    assert_eq!(classify_status(""), SourceState::Other);
    assert_eq!(classify_status("Discharging"), SourceState::Other);
    assert_eq!(classify_status("discharging\n"), SourceState::Other);
}

#[test]
fn parse_plain_levels() {
    assert_eq!(parse_level("57\n"), Some(57));
    assert_eq!(parse_level("0\n"), Some(0));
    assert_eq!(parse_level("100\n"), Some(100));
    assert_eq!(parse_level("42"), Some(42));
    assert_eq!(parse_level("007\n"), Some(7));
}

#[test]
fn parse_rejects_out_of_range_levels() {
    assert_eq!(parse_level("101\n"), None);
    assert_eq!(parse_level("255\n"), None);
    assert_eq!(parse_level("99999999999999999999\n"), None);
}

#[test]
fn parse_rejects_malformed_levels() {
    assert_eq!(parse_level(""), None);
    assert_eq!(parse_level("\n"), None);
    assert_eq!(parse_level("5a\n"), None);
    assert_eq!(parse_level(" 57\n"), None);
    assert_eq!(parse_level("-3\n"), None);
}
