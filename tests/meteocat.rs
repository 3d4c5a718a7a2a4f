use weather_data::meteocat::split_last;
use weather_data::{Decimal, DownloadError, MeteocatDownloader};

fn header() -> String {
    let titles = [
        "Per\u{ed}ode",
        "Temperatura mitjana (\u{b0}C)",
        "Humitat relativa mitjana (%)",
        "Direcci\u{f3} mitjana del vent (graus)",
        "Velocitat mitjana del vent (km/h)",
        "Ratxa m\u{e0}xima del vent (km/h)",
        "Pressi\u{f3} atmosf\u{e8}rica mitjana (hPa)",
        "Precipitaci\u{f3} (mm)",
    ];
    let mut h = String::from("<tr>");
    for t in titles {
        h.push_str(&format!("<th><span title=\"{}\">x</span></th>", t));
    }
    h.push_str("</tr>");
    h
}

fn row(time: &str, cells: &[&str]) -> String {
    let mut r = format!("<tr><th>{}</th>", time);
    for c in cells {
        r.push_str(&format!("<td>{}</td>", c));
    }
    r.push_str("</tr>");
    r
}

fn no_data(time: &str) -> String {
    row(time, &["(s/d)"; 7])
}

fn page(rows: &[String]) -> Vec<u8> {
    let mut p = String::from("<html><body><input id=\"datepicker\" value=\" 19.10.2024 \">");
    p.push_str("<table class=\"tblperiode\">");
    p.push_str(&header());
    for r in rows {
        p.push_str(r);
    }
    p.push_str("</table></body></html>");
    p.into_bytes()
}

#[test]
fn meteocat_last_usable_row_wins() {
    let rows = vec![
        no_data("00:00 - 00:30"),
        row("00:30 - 01:00", &["10.1", "80", "90", "5.4", "9.6", "1009.4", "0.0"]),
        no_data("01:00 - 01:30"),
        no_data("01:30 - 02:00"),
        row("02:00 - 02:30", &["12.6", "75", "225.5", "7.5", "15.2", "1011.5", "0.3"]),
        no_data("02:30 - 03:00"),
    ];
    let m = MeteocatDownloader {}.try_download(&page(&rows)).unwrap();
    assert_eq!(m.update_time.as_deref(), Some("2024-10-19 02:30"));
    assert_eq!(m.temperature, Some(Decimal { mantissa: 126, scale: 1 }));
    assert_eq!(m.humidity, Some(75));
    assert_eq!(m.wind_direction.as_deref(), Some("SW"));
    assert_eq!(m.wind_speed, Some(8));
    assert_eq!(m.gusts_speed, Some(15));
    assert_eq!(m.pressure, Some(1012));
    assert_eq!(m.precipitation, Some(Decimal { mantissa: 3, scale: 1 }));
}

#[test]
fn meteocat_last_usable_row_wins_on_plain_values() {
    let headers: Vec<Option<String>> = vec![
        Some("Per\u{ed}ode".to_string()),
        Some(" Humitat relativa mitjana (%) ".to_string()),
    ];
    let mut rows: Vec<(Option<String>, Vec<String>)> = Vec::new();
    for k in 0..6 {
        let value = if k == 1 { "40" } else if k == 4 { "55" } else { "(s/d)" };
        rows.push((Some(format!("0{}:00 - 0{}:30", k, k)), vec![value.to_string()]));
    }
    let date = Some("19.10.2024".to_string());
    let m = MeteocatDownloader::reading_from_table(&headers, &rows, &date).unwrap();
    assert_eq!(m.humidity, Some(55));
    assert_eq!(m.update_time.as_deref(), Some("2024-10-19 04:30"));
}

#[test]
fn meteocat_all_no_data_gives_empty_record() {
    let rows = vec![no_data("00:00 - 00:30"), no_data("00:30 - 01:00")];
    let body = page(&rows);
    assert!(matches!(MeteocatDownloader {}.try_download(&body), Err(DownloadError::Format)));
    let m = MeteocatDownloader {}.download(Ok(body));
    assert!(m.update_time.is_none() && m.temperature.is_none() && m.wind_direction.is_none());
}

#[test]
fn meteocat_missing_date_is_format_failure() {
    let headers: Vec<Option<String>> = vec![Some("P".to_string()), Some("Precipitaci\u{f3} (mm)".to_string())];
    let rows = vec![(Some("10:00 - 10:30".to_string()), vec!["1.0".to_string()])];
    assert!(matches!(
        MeteocatDownloader::reading_from_table(&headers, &rows, &None),
        Err(DownloadError::Format)
    ));
}

#[test]
fn meteocat_row_without_time_cell_is_format_failure() {
    let headers: Vec<Option<String>> = vec![Some("P".to_string())];
    let rows = vec![(None, vec!["1.0".to_string()])];
    let date = Some("19.10.2024".to_string());
    assert!(matches!(
        MeteocatDownloader::reading_from_table(&headers, &rows, &date),
        Err(DownloadError::Format)
    ));
}

#[test]
fn meteocat_bad_date_is_parse_failure() {
    let headers: Vec<Option<String>> = vec![Some("P".to_string())];
    let rows = vec![(Some("10:00 - 10:30".to_string()), vec!["1.0".to_string()])];
    let date = Some("19/10/2024".to_string());
    assert!(matches!(
        MeteocatDownloader::reading_from_table(&headers, &rows, &date),
        Err(DownloadError::Parse)
    ));
}

#[test]
fn meteocat_time_range_splits_from_the_left() {
    let s: Vec<char> = " - - ".chars().collect();
    let sep: Vec<char> = " - ".chars().collect();
    let r: String = split_last(&s, &sep).into_iter().collect();
    assert_eq!(r, "- ");
    let s: Vec<char> = "10:00 - 10:30".chars().collect();
    let r: String = split_last(&s, &sep).into_iter().collect();
    assert_eq!(r, "10:30");
}
