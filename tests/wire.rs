use weather_data::{Config, ConfigStation, Decimal, Measurements, WireValue};

#[test]
fn record_round_trips_through_wire_form() {
    let m = Measurements {
        update_time: Some("2024-10-19 14:00".to_string()),
        humidity: None,
        precipitation: Some(Decimal { mantissa: 16, scale: 1 }),
        pressure: Some(1014),
        temperature: None,
        wind_direction: Some("SSW".to_string()),
        wind_speed: Some(0),
        gusts_speed: None,
    };
    let wire = m.to_wire();
    assert_eq!(wire.len(), 8);
    assert_eq!(wire[0].0, "update_time");
    assert!(matches!(wire[1].1, WireValue::Null));
    let back = Measurements::from_wire(&wire).unwrap();
    assert_eq!(back.update_time, m.update_time);
    assert_eq!(back.humidity, None);
    assert_eq!(back.precipitation, m.precipitation);
    assert_eq!(back.pressure, Some(1014));
    assert_eq!(back.temperature, None);
    assert_eq!(back.wind_direction, m.wind_direction);
    assert_eq!(back.wind_speed, Some(0));
    assert_eq!(back.gusts_speed, None);
}

#[test]
fn wire_form_with_wrong_type_does_not_decode() {
    let fields = vec![("pressure".to_string(), WireValue::Text("high".to_string()))];
    assert!(Measurements::from_wire(&fields).is_none());
}

#[test]
fn missing_wire_fields_are_absent() {
    let fields = vec![("humidity".to_string(), WireValue::Integer(40))];
    let m = Measurements::from_wire(&fields).unwrap();
    assert_eq!(m.humidity, Some(40));
    assert_eq!(m.update_time, None);
}

#[test]
fn empty_record_is_all_null() {
    let wire = Measurements::empty().to_wire();
    assert!(wire.iter().all(|(_, v)| matches!(v, WireValue::Null)));
}

#[test]
fn config_lists_station_urls_in_order() {
    let c = Config {
        stations: vec![
            ConfigStation { label: "A".to_string(), url: "https://a".to_string() },
            ConfigStation { label: "B".to_string(), url: "https://b".to_string() },
        ],
        measurements: Vec::new(),
    };
    assert_eq!(c.station_urls(), vec!["https://a".to_string(), "https://b".to_string()]);
}
