use weather_data::{AemetDownloader, Decimal, DownloadError, Measurements};

fn header() -> String {
    let mut h = String::from("<tr>");
    h.push_str("<th title=\"Fecha y hora oficial\">Fecha</th>");
    h.push_str("<th title=\"Temperature (\u{b0}C)\">T</th>");
    h.push_str("<th abbr=\"Wind direction\">Dir</th>");
    h.push_str("<th title=\"Wind speed (km/h)\">V</th>");
    h.push_str("<th title=\"Gust (km/h)\">R</th>");
    h.push_str("<th title=\"Pressure (hPa)\">P</th>");
    h.push_str("<th title=\"Precipitation (mm)\">Pr</th>");
    h.push_str("<th title=\"Humidity (%)\">H</th>");
    h.push_str("</tr>");
    h
}

fn row(cells: &[&str]) -> String {
    let mut r = String::from("<tr>");
    for c in cells {
        r.push_str("<td>");
        r.push_str(c);
        r.push_str("</td>");
    }
    r.push_str("</tr>");
    r
}

fn page(rows: &[String]) -> Vec<u8> {
    let mut p = String::from("<html><body><table id=\"table\">");
    p.push_str(&header());
    for r in rows {
        p.push_str(r);
    }
    p.push_str("</table></body></html>");
    p.into_bytes()
}

fn is_empty(m: &Measurements) -> bool {
    m.update_time.is_none()
        && m.humidity.is_none()
        && m.precipitation.is_none()
        && m.pressure.is_none()
        && m.temperature.is_none()
        && m.wind_direction.is_none()
        && m.wind_speed.is_none()
        && m.gusts_speed.is_none()
}

#[test]
fn aemet_reads_first_usable_row_in_utc() {
    let blank = row(&["19/10/2024 15:00", "", "", "", "", "", "", ""]);
    let full = row(&["19/10/2024 14:00", "21.4", "Direcci\u{f3}n-Nor-Oeste", "12", "20", "1013.6", "0.2", "65"]);
    let older = row(&["19/10/2024 13:00", "19.0", "-Sur", "5", "9", "1012.1", "0.0", "70"]);
    let m = AemetDownloader {}.try_download(&page(&[blank, full, older])).unwrap();
    assert_eq!(m.update_time.as_deref(), Some("2024-10-19 12:00"));
    assert_eq!(m.temperature, Some(Decimal { mantissa: 214, scale: 1 }));
    assert_eq!(m.wind_direction.as_deref(), Some("NW"));
    assert_eq!(m.wind_speed, Some(12));
    assert_eq!(m.gusts_speed, Some(20));
    assert_eq!(m.pressure, Some(1014));
    assert_eq!(m.precipitation, Some(Decimal { mantissa: 2, scale: 1 }));
    assert_eq!(m.humidity, Some(65));
}

#[test]
fn aemet_winter_time_is_one_hour_ahead() {
    let full = row(&["15/01/2024 10:30", "5.0", "", "", "", "", "", ""]);
    let m = AemetDownloader {}.try_download(&page(&[full])).unwrap();
    assert_eq!(m.update_time.as_deref(), Some("2024-01-15 09:30"));
    assert_eq!(m.wind_direction, None);
    assert_eq!(m.wind_speed, None);
}

#[test]
fn aemet_all_blank_rows_give_empty_record() {
    let a = row(&["19/10/2024 15:00", "", "", "", "", "", "", ""]);
    let b = row(&["19/10/2024 14:00", "", "", "", "", "", "", ""]);
    let body = page(&[a, b]);
    assert!(matches!(AemetDownloader {}.try_download(&body), Err(DownloadError::Format)));
    let m = AemetDownloader {}.download(Ok(body));
    assert!(is_empty(&m));
}

#[test]
fn aemet_missing_table_is_format_failure() {
    let body = b"<html><body><p>nothing</p></body></html>".to_vec();
    assert!(matches!(AemetDownloader {}.try_download(&body), Err(DownloadError::Format)));
}

#[test]
fn aemet_bad_timestamp_is_parse_failure() {
    let full = row(&["yesterday", "21.4", "", "", "", "", "", ""]);
    assert!(matches!(AemetDownloader {}.try_download(&page(&[full])), Err(DownloadError::Parse)));
}

#[test]
fn aemet_failed_fetch_gives_empty_record() {
    let m = AemetDownloader {}.download(Err(DownloadError::Network));
    assert!(is_empty(&m));
}

#[test]
fn aemet_header_without_name_is_format_failure() {
    let headers = vec![(Some("Fecha y hora oficial".to_string()), None), (None, None)];
    let rows = vec![vec!["19/10/2024 14:00".to_string(), "1".to_string()]];
    assert!(matches!(
        AemetDownloader::reading_from_table(&headers, &rows),
        Err(DownloadError::Format)
    ));
}

#[test]
fn aemet_request_url_asks_for_details() {
    let u = AemetDownloader {}.request_url("https://www.aemet.es/x?k=cat&l=0149X");
    assert_eq!(u, "https://www.aemet.es/x?k=cat&l=0149X&w=0&datos=det");
    assert_eq!(AemetDownloader {}.base_url(), "https://www.aemet.es/");
}

#[test]
fn aemet_out_of_range_values_stay_absent() {
    let full = row(&["19/10/2024 14:00", "21.4", "-Sin-Datos", "12", "20", "1013.6", "-0.5", "120"]);
    let m = AemetDownloader {}.try_download(&page(&[full])).unwrap();
    assert_eq!(m.humidity, None);
    assert_eq!(m.precipitation, None);
    assert_eq!(m.wind_direction, None);
    assert_eq!(m.pressure, Some(1014));
}

#[test]
fn aemet_table_without_rows_is_format_failure() {
    let body = b"<html><body><table id=\"table\"></table></body></html>".to_vec();
    assert!(matches!(AemetDownloader {}.try_download(&body), Err(DownloadError::Format)));
}
