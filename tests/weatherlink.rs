use weather_data::{Decimal, DownloadError, Downloader, WeatherlinkDownloader, WeatherlinkPayload};

fn payload() -> WeatherlinkPayload {
    WeatherlinkPayload {
        wind_direction: 200,
        barometer_units: "mb".to_string(),
        wind_units: "km/h".to_string(),
        rain_units: "mm".to_string(),
        temp_units: "&deg;C".to_string(),
        temperature: "18.2".to_string(),
        wind: "11".to_string(),
        gust: "23".to_string(),
        humidity: "71".to_string(),
        rain: "1.6".to_string(),
        barometer: "1013.6".to_string(),
        last_received: 1_729_346_400_123,
    }
}

#[test]
fn weatherlink_reads_payload() {
    let m = WeatherlinkDownloader::reading_from_payload(&payload()).unwrap();
    assert_eq!(m.update_time.as_deref(), Some("2024-10-19 14:00"));
    assert_eq!(m.humidity, Some(71));
    assert_eq!(m.precipitation, Some(Decimal { mantissa: 16, scale: 1 }));
    assert_eq!(m.pressure, Some(1014));
    assert_eq!(m.temperature, Some(Decimal { mantissa: 182, scale: 1 }));
    assert_eq!(m.wind_direction.as_deref(), Some("SSW"));
    assert_eq!(m.wind_speed, Some(11));
    assert_eq!(m.gusts_speed, Some(23));
}

#[test]
fn weatherlink_accepts_hectopascals() {
    let mut p = payload();
    p.barometer_units = "hPa".to_string();
    assert!(WeatherlinkDownloader::reading_from_payload(&p).is_ok());
}

#[test]
fn weatherlink_rejects_other_units() {
    let mut p = payload();
    p.barometer_units = "inHg".to_string();
    assert!(matches!(
        WeatherlinkDownloader::reading_from_payload(&p),
        Err(DownloadError::Validation)
    ));
    let mut p = payload();
    p.temp_units = "&deg;F".to_string();
    assert!(matches!(
        WeatherlinkDownloader::reading_from_payload(&p),
        Err(DownloadError::Validation)
    ));
    let m = WeatherlinkDownloader {}.download(Ok(p));
    assert!(m.update_time.is_none() && m.temperature.is_none() && m.pressure.is_none());
}

#[test]
fn weatherlink_unreadable_number_is_parse_failure() {
    let mut p = payload();
    p.humidity = "--".to_string();
    assert!(matches!(
        WeatherlinkDownloader::reading_from_payload(&p),
        Err(DownloadError::Parse)
    ));
}

#[test]
fn weatherlink_request_url_points_at_data() {
    let d = WeatherlinkDownloader {};
    assert_eq!(
        d.request_url("https://www.weatherlink.com/embeddablePage/show/abc123/signature").unwrap(),
        "https://www.weatherlink.com/embeddablePage/getData/abc123"
    );
    assert_eq!(
        d.request_url("https://www.weatherlink.com/embeddablePage/show/xyz").unwrap(),
        "https://www.weatherlink.com/embeddablePage/getData/xyz"
    );
    assert!(matches!(
        d.request_url("https://www.weatherlink.com/other/abc"),
        Err(DownloadError::Format)
    ));
}

#[test]
fn weatherlink_trait_reading_matches_example() {
    let d = WeatherlinkDownloader {};
    let url = "https://www.weatherlink.com/embeddablePage/show/abc123";
    assert_eq!(
        Downloader::request_url(&d, url).unwrap(),
        "https://www.weatherlink.com/embeddablePage/getData/abc123"
    );
    let mut p = payload();
    p.barometer_units = "hPa".to_string();
    p.wind_direction = 90;
    p.humidity = "65".to_string();
    p.rain = "0.2".to_string();
    p.temperature = "14.3".to_string();
    p.wind = "12".to_string();
    p.gust = "20".to_string();
    p.barometer = "1013.2".to_string();
    p.last_received = 1_700_000_000_000;
    let m = Downloader::try_download(&d, &p).unwrap();
    assert_eq!(m.update_time.as_deref(), Some("2023-11-14 22:13"));
    assert_eq!(m.humidity, Some(65));
    assert_eq!(m.precipitation, Some(Decimal { mantissa: 2, scale: 1 }));
    assert_eq!(m.pressure, Some(1013));
    assert_eq!(m.temperature, Some(Decimal { mantissa: 143, scale: 1 }));
    assert_eq!(m.wind_direction.as_deref(), Some("E"));
    assert_eq!(m.wind_speed, Some(12));
    assert_eq!(m.gusts_speed, Some(20));
}

#[test]
fn weatherlink_trait_rejects_bad_units() {
    let mut p = payload();
    p.wind_units = "mph".to_string();
    assert!(matches!(
        Downloader::try_download(&WeatherlinkDownloader {}, &p),
        Err(DownloadError::Validation)
    ));
}

#[test]
fn weatherlink_out_of_range_values_fail_the_reading() {
    let mut p = payload();
    p.humidity = "140".to_string();
    assert!(matches!(
        WeatherlinkDownloader::reading_from_payload(&p),
        Err(DownloadError::Parse)
    ));
    let mut p = payload();
    p.rain = "-1.0".to_string();
    assert!(matches!(
        WeatherlinkDownloader::reading_from_payload(&p),
        Err(DownloadError::Parse)
    ));
}

#[test]
fn weatherlink_epoch_start_is_formatted() {
    let mut p = payload();
    p.last_received = 0;
    let m = WeatherlinkDownloader::reading_from_payload(&p).unwrap();
    assert_eq!(m.update_time.as_deref(), Some("1970-01-01 00:00"));
}
