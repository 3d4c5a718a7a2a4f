use weather_data::dispatch::source_for_lowered;
use weather_data::{
    AemetDownloader, DownloadError, Downloader, MeteocatDownloader, MeteoclimaticDownloader,
    OpenWindMapDownloader, Source, WeatherlinkDownloader,
};

fn prefix_of<D: Downloader>(d: &D) -> String {
    d.base_url()
}

#[test]
fn collectors_claim_their_prefixes() {
    assert_eq!(prefix_of(&AemetDownloader {}), "https://www.aemet.es/");
    assert_eq!(prefix_of(&MeteocatDownloader {}), "https://www.meteo.cat/");
    assert_eq!(prefix_of(&MeteoclimaticDownloader {}), "https://www.meteoclimatic.net/");
    assert_eq!(prefix_of(&WeatherlinkDownloader {}), "https://www.weatherlink.com/");
    assert_eq!(prefix_of(&OpenWindMapDownloader {}), "https://www.openwindmap.org/");
}

#[test]
fn collector_download_absorbs_failures() {
    let m = Downloader::download(&MeteocatDownloader {}, Err(DownloadError::Network));
    assert!(m.update_time.is_none() && m.temperature.is_none());
    let m = Downloader::download(&OpenWindMapDownloader {}, Err(DownloadError::Format));
    assert!(m.wind_speed.is_none() && m.wind_direction.is_none());
}

#[test]
fn collector_request_url_goes_through_trait() {
    let t = Downloader::request_url(
        &WeatherlinkDownloader {},
        "https://www.weatherlink.com/embeddablePage/show/k1",
    )
    .unwrap();
    assert_eq!(t, "https://www.weatherlink.com/embeddablePage/getData/k1");
    let t = Downloader::request_url(&AemetDownloader {}, "https://www.aemet.es/a?l=1").unwrap();
    assert_eq!(t, "https://www.aemet.es/a?l=1&w=0&datos=det");
}

#[test]
fn prefixes_are_matched_in_declared_order() {
    assert_eq!(source_for_lowered("https://www.aemet.es/x"), Some(Source::Aemet));
    assert_eq!(source_for_lowered("https://www.meteo.cat/x"), Some(Source::Meteocat));
    assert_eq!(
        source_for_lowered("https://www.meteoclimatic.net/x"),
        Some(Source::Meteoclimatic)
    );
    assert_eq!(source_for_lowered("https://www.weatherlink.com/x"), Some(Source::Weatherlink));
    assert_eq!(source_for_lowered("https://www.openwindmap.org/x"), Some(Source::OpenWindMap));
    assert_eq!(source_for_lowered("https://www.meteo.ca/x"), None);
    assert_eq!(source_for_lowered("HTTPS://WWW.AEMET.ES/x"), None);
    assert_eq!(source_for_lowered(""), None);
}
