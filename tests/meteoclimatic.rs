use weather_data::{Decimal, DownloadError, MeteoclimaticDownloader};

fn pair(title: &str, value: &str) -> String {
    format!(
        "<tr><td class=\"titolet\">{}</td><td class=\"dadesactuals\">{}</td></tr>",
        title, value
    )
}

fn page(pairs: &[String]) -> String {
    let mut p = String::from("<html><body><table>");
    for x in pairs {
        p.push_str(x);
    }
    p.push_str("<tr><td>\u{da}ltima actualizaci\u{f3}n 19-10-2024 14:20 UTC</td></tr>");
    p.push_str("</table></body></html>");
    p
}

fn latin9(s: &str) -> Vec<u8> {
    s.chars().map(|c| c as u32 as u8).collect()
}

fn full_page() -> String {
    page(&[
        pair("Temperatura", "12.3 \u{ba}C"),
        pair("Humedad", "65 %"),
        pair("Presi\u{f3}n", "1015 hPa"),
        pair("Precip.", "0.4 mm"),
        pair("Viento", "NO&nbsp;&nbsp;14.6 km/h"),
    ])
}

#[test]
fn meteoclimatic_reads_paired_fields() {
    let m = MeteoclimaticDownloader::reading_from_page(&full_page()).unwrap();
    assert_eq!(m.temperature, Some(Decimal { mantissa: 123, scale: 1 }));
    assert_eq!(m.humidity, Some(65));
    assert_eq!(m.pressure, Some(1015));
    assert_eq!(m.precipitation, Some(Decimal { mantissa: 4, scale: 1 }));
    assert_eq!(m.wind_direction.as_deref(), Some("NW"));
    assert_eq!(m.wind_speed, Some(15));
    assert_eq!(m.gusts_speed, None);
    assert_eq!(m.update_time.as_deref(), Some("2024-10-19 14:20"));
}

#[test]
fn meteoclimatic_decodes_latin9_bytes() {
    let m = MeteoclimaticDownloader {}.try_download(&latin9(&full_page())).unwrap();
    assert_eq!(m.temperature, Some(Decimal { mantissa: 123, scale: 1 }));
    assert_eq!(m.pressure, Some(1015));
    assert_eq!(m.update_time.as_deref(), Some("2024-10-19 14:20"));
}

#[test]
fn meteoclimatic_missing_titles_stay_absent() {
    let m = MeteoclimaticDownloader::reading_from_page(&page(&[pair("Humedad", "40 %")])).unwrap();
    assert_eq!(m.humidity, Some(40));
    assert_eq!(m.temperature, None);
    assert_eq!(m.wind_direction, None);
}

#[test]
fn meteoclimatic_repeated_title_keeps_last_reading() {
    let p = page(&[pair("Humedad", "40 %"), pair("Humedad", "41 %")]);
    let m = MeteoclimaticDownloader::reading_from_page(&p).unwrap();
    assert_eq!(m.humidity, Some(41));
}

#[test]
fn meteoclimatic_unreadable_value_is_parse_failure() {
    let p = page(&[pair("Presi\u{f3}n", "high hPa")]);
    assert!(matches!(
        MeteoclimaticDownloader::reading_from_page(&p),
        Err(DownloadError::Parse)
    ));
    let p = page(&[pair("Viento", "calma")]);
    assert!(matches!(
        MeteoclimaticDownloader::reading_from_page(&p),
        Err(DownloadError::Parse)
    ));
}

#[test]
fn meteoclimatic_without_stamp_has_no_time() {
    let p = "<td class=\"titolet\">Humedad</td><td class=\"dadesactuals\">50 %</td>";
    let m = MeteoclimaticDownloader::reading_from_page(p).unwrap();
    assert_eq!(m.humidity, Some(50));
    assert_eq!(m.update_time, None);
}

#[test]
fn meteoclimatic_pressure_is_rounded() {
    let p = page(&[pair("Presi\u{f3}n", "1013.6 hPa"), pair("Humedad", "65 %")]);
    let m = MeteoclimaticDownloader::reading_from_page(&p).unwrap();
    assert_eq!(m.pressure, Some(1014));
    assert_eq!(m.humidity, Some(65));
}

#[test]
fn meteoclimatic_unknown_direction_stays_absent() {
    let p = page(&[pair("Viento", "Calma&nbsp;&nbsp;0 km/h"), pair("Humedad", "100 %")]);
    let m = MeteoclimaticDownloader::reading_from_page(&p).unwrap();
    assert_eq!(m.wind_direction, None);
    assert_eq!(m.wind_speed, Some(0));
    assert_eq!(m.humidity, Some(100));
}

#[test]
fn meteoclimatic_out_of_range_values_fail_the_reading() {
    let p = page(&[pair("Humedad", "150 %"), pair("Temperatura", "10.0 \u{ba}C")]);
    assert!(matches!(
        MeteoclimaticDownloader::reading_from_page(&p),
        Err(DownloadError::Parse)
    ));
    let p = page(&[pair("Precip.", "-0.2 mm")]);
    assert!(matches!(
        MeteoclimaticDownloader::reading_from_page(&p),
        Err(DownloadError::Parse)
    ));
    let m = MeteoclimaticDownloader {}.download(Ok(latin9(&page(&[pair("Humedad", "150 %")]))));
    assert!(m.humidity.is_none() && m.update_time.is_none());
}
