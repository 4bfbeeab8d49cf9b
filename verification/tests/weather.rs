use nibari::config::Config;
use nibari::weather::schedule::{
    forecast_url, location_source, request_due, Location, LocationSource, WeatherHandle,
    WeatherOptions, WeatherState, MINUTE,
};
use nibari::weather::{
    encode, locate, parse_location, parse_report, Condition, LocationFields, Place, WeatherError,
    MAX_RESPONSE,
};

fn is_helsinki(place: &Place) -> bool {
    place.name.as_deref() == Some("Helsinki")
        && f64::from_bits(place.latitude) == 60.17
        && f64::from_bits(place.longitude) == 24.94
}

fn document(text: &str) -> Vec<u8> {
    text.as_bytes().to_vec()
}

#[test]
fn city_query_encodes_separators_and_utf8() {
    assert_eq!(encode("New York&x=1"), "New%20York%26x%3D1");
    assert_eq!(encode("Уфа"), "%D0%A3%D1%84%D0%B0");
}

#[test]
fn automatic_location_requires_success_and_valid_coordinates() {
    let found = r#"{"success":true,"city":"Helsinki","latitude":60.17,"longitude":24.94}"#;
    assert!(is_helsinki(
        &parse_location(&document(found), true).unwrap()
    ));
    for text in [
        r#"{"success":false,"message":"quota"}"#,
        r#"{"success":true,"latitude":91,"longitude":0}"#,
        r#"{"success":true,"city":"No coordinates"}"#,
    ] {
        assert!(parse_location(&document(text), true).is_err());
    }
}

#[test]
fn named_location_uses_geocoding_result_and_rejects_empty_results() {
    let found = r#"{"results":[{"name":"Helsinki","latitude":60.17,"longitude":24.94}]}"#;
    assert!(is_helsinki(
        &parse_location(&document(found), false).unwrap()
    ));
    assert!(parse_location(&document(r#"{"results":[]}"#), false).is_err());
}

#[test]
fn forecast_uses_location_date_and_keeps_missing_values_unknown() {
    let text = r#"{"current":{"time":"2026-09-16T00:15","temperature_2m":9.4,"apparent_temperature":null},"daily":{"time":["2026-09-15","2026-09-16","2026-09-17","2026-09-18","2026-09-19","2026-09-20"],"temperature_2m_max":[10,11,12,null,14,15],"temperature_2m_min":[2,3,4,5,6,7]}}"#;
    let r = parse_report(&document(text), "Helsinki".into()).unwrap();
    assert_eq!(f64::from_bits(r.temperature), 9.4);
    assert_eq!(r.feels, None);
    assert_eq!(
        r.days
            .iter()
            .map(|d| format!("{:04}-{:02}-{:02}", d.date.year, d.date.month, d.date.day))
            .collect::<Vec<_>>(),
        ["2026-09-17", "2026-09-18", "2026-09-19"]
    );
    assert_eq!(r.days[0].high, Some(12.0_f64.to_bits()));
    assert_eq!(r.days[1].high, None);
    assert_eq!(r.location, "Helsinki");
}

#[test]
fn unavailable_current_weather_is_an_error_not_zero_degrees() {
    for text in [
        "{}",
        r#"{"error":true,"reason":"bad location"}"#,
        r#"{"current":{"time":"2026-09-16T00:15","temperature_2m":null}}"#,
    ] {
        assert!(parse_report(&document(text), "Helsinki".into()).is_err());
    }
}

fn location_error(text: &str, auto: bool) -> WeatherError {
    parse_location(&document(text), auto).unwrap_err()
}

fn report_error(text: &str) -> WeatherError {
    parse_report(&document(text), "Helsinki".into()).unwrap_err()
}

#[test]
fn every_error_has_its_input_and_its_text() {
    assert_eq!(
        location_error(r#"{"success":false}"#, true),
        WeatherError::NotDetected
    );
    assert_eq!(
        location_error(r#"{"results":[]}"#, false),
        WeatherError::NotFound
    );
    assert_eq!(
        location_error(r#"{"success":true,"longitude":0}"#, true),
        WeatherError::NoLatitude
    );
    assert_eq!(
        location_error(r#"{"success":true,"latitude":0}"#, true),
        WeatherError::NoLongitude
    );
    assert_eq!(
        location_error(r#"{"success":true,"latitude":0,"longitude":180.5}"#, true),
        WeatherError::InvalidCoordinates
    );
    assert_eq!(location_error("nonsense", true), WeatherError::InvalidJson);
    assert_eq!(report_error(r#"{"error":true}"#), WeatherError::Rejected);
    assert_eq!(report_error("{}"), WeatherError::NoTemperature);
    assert_eq!(
        report_error(r#"{"current":{"temperature_2m":1}}"#),
        WeatherError::NoDate
    );
    assert_eq!(report_error("[1,"), WeatherError::InvalidJson);
    let huge = vec![b' '; MAX_RESPONSE + 1];
    assert_eq!(
        parse_location(&huge, true).unwrap_err(),
        WeatherError::TooLarge
    );
    assert_eq!(
        WeatherError::NotFound.message(),
        "city not found; try coordinates"
    );
}

#[test]
fn places_are_found_from_plain_fields() {
    let fields = LocationFields {
        success: Some(true),
        results: None,
        latitude: Some(60.17_f64.to_bits()),
        longitude: Some(24.94_f64.to_bits()),
        name: Some("Hel\nsinki".into()),
    };
    assert!(is_helsinki(&locate(&fields, true).unwrap()));
    assert!(locate(&fields, false).is_err());
}

#[test]
fn codes_name_the_condition() {
    assert_eq!(Condition::from_code(Some(0)), Condition::Clear);
    assert_eq!(Condition::from_code(Some(45)), Condition::Fog);
    assert_eq!(Condition::from_code(Some(61)), Condition::Rain);
    assert_eq!(Condition::from_code(Some(71)), Condition::Snow);
    assert_eq!(Condition::from_code(Some(95)), Condition::Thunder);
    assert_eq!(Condition::from_code(None), Condition::default());
}

fn options(location: &str, coordinates: Option<(f64, f64)>) -> WeatherOptions {
    WeatherOptions {
        location: location.into(),
        coordinates: coordinates.map(|(a, b)| (a.to_bits(), b.to_bits())),
        interval: 900_000_000_000,
    }
}

#[test]
fn coordinates_win_over_names_and_names_over_detection() {
    let pinned = options("Pinned", Some((60.0, 24.0)));
    assert!(matches!(
        location_source(&pinned, &None, "60.000, 24.000"),
        LocationSource::Known(Location { name, .. }) if name == "Pinned"
    ));
    let unnamed = options("", Some((60.0, 24.0)));
    assert!(matches!(
        location_source(&unnamed, &None, "60.000, 24.000"),
        LocationSource::Known(Location { name, .. }) if name == "60.000, 24.000"
    ));
    assert!(matches!(
        location_source(&options("New York", None), &None, ""),
        LocationSource::Search(url) if url.contains("name=New%20York&count=1")
    ));
    assert!(matches!(
        location_source(&options("", None), &None, ""),
        LocationSource::Detect(url) if url.starts_with("https://ipwho.is/")
    ));
    assert!(forecast_url("60.17", "24.94").contains("latitude=60.17&longitude=24.94&current="));
}

#[test]
fn failed_requests_keep_the_report_and_are_tried_again() {
    let text = r#"{"current":{"time":"2026-09-16T00:15","temperature_2m":9.4}}"#;
    let report = parse_report(&document(text), "Helsinki".into()).unwrap();
    let mut state = WeatherState::new();
    let config = Config {
        weather_refresh_minutes: 15,
        ..Config::default()
    };
    let options = WeatherOptions::new(&config);
    assert_eq!(options.interval, 15 * u128::from(MINUTE));
    state.answer(None, 100);
    assert!(state.error.is_some() && state.report.is_none());
    state.answer(Some(report), 200);
    assert!(state.error.is_none());
    assert_eq!(state.updated_at, Some(200));
    let now = 10 * MINUTE;
    let shown = state.delay(&options, Some(now), now);
    state.answer(None, 300);
    assert!(state.report.is_some());
    assert_eq!(state.updated_at, Some(200));
    assert!(state.delay(&options, Some(now), now) < shown);
    assert!(request_due(None, now));
    assert!(!request_due(Some(now), now + MINUTE - 1));
    assert!(request_due(Some(now), now + MINUTE));
}

#[test]
fn handles_wake_and_stop_the_worker() {
    let mut handle = WeatherHandle::new();
    assert!(!handle.awake && !handle.shutdown);
    handle.refresh();
    assert!(handle.awake);
    assert!(handle.resume());
    assert!(!handle.awake);
    assert!(!handle.resume());
    handle.stop();
    assert!(handle.shutdown);
    assert!(handle.resume());
}
