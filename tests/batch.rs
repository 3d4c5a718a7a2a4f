use weather_data::{
    assemble, dispatch, get_units, plan_batch, BatchError, DownloadError, Fetched, Job,
    Measurements, Source, WeatherlinkPayload,
};

fn payload() -> WeatherlinkPayload {
    WeatherlinkPayload {
        wind_direction: 90,
        barometer_units: "hPa".to_string(),
        wind_units: "km/h".to_string(),
        rain_units: "mm".to_string(),
        temp_units: "&deg;C".to_string(),
        temperature: "20.0".to_string(),
        wind: "5".to_string(),
        gust: "8".to_string(),
        humidity: "50".to_string(),
        rain: "0".to_string(),
        barometer: "1000".to_string(),
        last_received: 1_729_346_400_000,
    }
}

fn is_empty(m: &Measurements) -> bool {
    m.update_time.is_none()
        && m.humidity.is_none()
        && m.precipitation.is_none()
        && m.pressure.is_none()
        && m.temperature.is_none()
        && m.wind_direction.is_none()
        && m.wind_speed.is_none()
        && m.gusts_speed.is_none()
}

/// Plays the part of the network: counts the fetches it is asked for and
/// answers each with a canned result.
fn run(urls: &Vec<String>, fetches: &mut usize) -> Result<Vec<Measurements>, BatchError> {
    let jobs = plan_batch(urls)?;
    let mut fetched = Vec::new();
    for job in &jobs {
        match job {
            Job::Fetch(Source::Weatherlink, _) => {
                *fetches += 1;
                fetched.push(Fetched::Weatherlink(payload()));
            }
            Job::Fetch(_, _) => {
                *fetches += 1;
                fetched.push(Fetched::Failed(DownloadError::Network));
            }
            _ => fetched.push(Fetched::Skipped),
        }
    }
    Ok(assemble(&jobs, fetched))
}

#[test]
fn batch_keeps_length_and_order() {
    let urls = vec![
        "https://www.aemet.es/x?k=cat&l=0149X".to_string(),
        "https://unknown.example/station".to_string(),
        "https://www.weatherlink.com/embeddablePage/show/abc".to_string(),
    ];
    let mut fetches = 0;
    let out = run(&urls, &mut fetches).unwrap();
    assert_eq!(out.len(), 3);
    assert!(is_empty(&out[0]));
    assert!(is_empty(&out[1]));
    assert_eq!(out[2].wind_direction.as_deref(), Some("E"));
    assert_eq!(out[2].pressure, Some(1000));
    assert_eq!(fetches, 2);
}

#[test]
fn batch_of_fifty_is_accepted() {
    let urls: Vec<String> = (0..50).map(|i| format!("https://nowhere.example/{}", i)).collect();
    let mut fetches = 0;
    let out = run(&urls, &mut fetches).unwrap();
    assert_eq!(out.len(), 50);
    assert!(out.iter().all(is_empty));
    assert_eq!(fetches, 0);
}

#[test]
fn batch_of_fifty_one_is_refused_before_fetching() {
    let urls: Vec<String> =
        (0..51).map(|_| "https://www.aemet.es/x?k=cat&l=1".to_string()).collect();
    let mut fetches = 0;
    assert!(matches!(run(&urls, &mut fetches), Err(BatchError::TooMany)));
    assert_eq!(fetches, 0);
}

#[test]
fn empty_batch_gives_empty_result() {
    let mut fetches = 0;
    assert_eq!(run(&Vec::new(), &mut fetches).unwrap().len(), 0);
}

#[test]
fn unknown_station_is_skipped_and_empty() {
    assert!(matches!(dispatch("ftp://www.aemet.es/"), Job::Unsupported));
    let jobs = vec![Job::Unsupported];
    let out = assemble(&jobs, vec![Fetched::Page(b"<table></table>".to_vec())]);
    assert!(is_empty(&out[0]));
}

#[test]
fn dispatch_ignores_case_of_scheme_and_host() {
    match dispatch("HTTPS://WWW.METEO.CAT/observacions/xema/dades?codi=WM") {
        Job::Fetch(Source::Meteocat, t) => {
            assert_eq!(t, "HTTPS://WWW.METEO.CAT/observacions/xema/dades?codi=WM")
        }
        other => panic!("unexpected job {:?}", other),
    }
    match dispatch("https://www.meteoclimatic.net/perfil/ESCAT0800000008572A") {
        Job::Fetch(Source::Meteoclimatic, _) => {}
        other => panic!("unexpected job {:?}", other),
    }
}

#[test]
fn dispatch_reports_bad_station_path() {
    assert!(matches!(
        dispatch("https://www.weatherlink.com/wrong/abc"),
        Job::Failed(Source::Weatherlink, DownloadError::Format)
    ));
}

#[test]
fn units_are_fixed() {
    let units = get_units();
    let expected = [
        ("update_time", "UTC"),
        ("humidity", "%"),
        ("precipitation", "mm"),
        ("pressure", "hPa"),
        ("temperature", "\u{b0}C"),
        ("wind_direction", ""),
        ("wind_speed", "km/h"),
        ("gusts_speed", "km/h"),
    ];
    assert_eq!(units.len(), expected.len());
    for (i, (k, v)) in expected.iter().enumerate() {
        assert_eq!(units[i].0, *k);
        assert_eq!(units[i].1, *v);
    }
}
