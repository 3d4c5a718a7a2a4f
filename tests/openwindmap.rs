use weather_data::{DownloadError, Downloader, OpenWindMapDownloader, OpenWindMapPayload};

fn payload() -> OpenWindMapPayload {
    OpenWindMapPayload {
        date: "2024-10-19T14:05:30.000Z".to_string(),
        wind_heading: "247.5".to_string(),
        wind_speed_avg: "12.4".to_string(),
        wind_speed_max: "20.5".to_string(),
    }
}

#[test]
fn openwindmap_reads_payload() {
    let m = OpenWindMapDownloader::reading_from_payload(&payload()).unwrap();
    assert_eq!(m.update_time.as_deref(), Some("2024-10-19 14:05"));
    assert_eq!(m.wind_direction.as_deref(), Some("WSW"));
    assert_eq!(m.wind_speed, Some(12));
    assert_eq!(m.gusts_speed, Some(21));
    assert_eq!(m.temperature, None);
    assert_eq!(m.humidity, None);
}

#[test]
fn openwindmap_offset_time_becomes_utc() {
    let mut p = payload();
    p.date = "2024-10-19T16:05:00+02:00".to_string();
    let m = OpenWindMapDownloader::reading_from_payload(&p).unwrap();
    assert_eq!(m.update_time.as_deref(), Some("2024-10-19 14:05"));
}

#[test]
fn openwindmap_bad_date_is_parse_failure() {
    let mut p = payload();
    p.date = "yesterday".to_string();
    assert!(matches!(
        OpenWindMapDownloader::reading_from_payload(&p),
        Err(DownloadError::Parse)
    ));
}

#[test]
fn openwindmap_request_url_uses_station_id() {
    let d = OpenWindMapDownloader {};
    assert_eq!(
        d.request_url("https://www.openwindmap.org/PP-1234-somewhere").unwrap(),
        "http://api.pioupiou.fr/v1/live/1234"
    );
    assert!(matches!(
        d.request_url("https://www.openwindmap.org/nodash"),
        Err(DownloadError::Format)
    ));
    assert!(matches!(d.request_url("https://example.org/PP-1"), Err(DownloadError::Format)));
}

#[test]
fn openwindmap_trait_reading_matches_example() {
    let d = OpenWindMapDownloader {};
    assert_eq!(
        Downloader::request_url(&d, "https://www.openwindmap.org/pioupiou-385").unwrap(),
        "http://api.pioupiou.fr/v1/live/385"
    );
    let p = OpenWindMapPayload {
        date: "2024-01-15T12:34:56.000Z".to_string(),
        wind_heading: "200.0".to_string(),
        wind_speed_avg: "12.4".to_string(),
        wind_speed_max: "20.6".to_string(),
    };
    let m = Downloader::try_download(&d, &p).unwrap();
    assert_eq!(m.update_time.as_deref(), Some("2024-01-15 12:34"));
    assert_eq!(m.wind_direction.as_deref(), Some("SSW"));
    assert_eq!(m.wind_speed, Some(12));
    assert_eq!(m.gusts_speed, Some(21));
    assert!(m.humidity.is_none() && m.precipitation.is_none());
    assert!(m.pressure.is_none() && m.temperature.is_none());
    let e = Downloader::download(&d, Ok(OpenWindMapPayload { date: "x".to_string(), ..p }));
    assert!(e.update_time.is_none() && e.wind_speed.is_none());
}
