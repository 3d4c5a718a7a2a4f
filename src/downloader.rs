use crate::aemet::AemetDownloader;
use crate::fields::{outcome_view, settled, valid_reading};
use crate::html::utf8_lossy_of;
use crate::measurements::{absent, DownloadError, Measurements, Reading};
use crate::meteocat::MeteocatDownloader;
use crate::meteoclimatic::MeteoclimaticDownloader;
use crate::openwindmap::{OpenWindMapDownloader, OpenWindMapPayload};
use crate::weatherlink::{WeatherlinkDownloader, WeatherlinkPayload};
use vstd::prelude::*;

verus! {

/// The capability every collector offers: the URL prefix it claims, the address
/// it fetches for a station, the reading of a fetched document, which may fail,
/// and its total form, which never does.
pub trait Downloader {
    /// What a fetch hands the collector: a page's bytes or a decoded document.
    type Document;

    /// The prefix of the URLs the collector claims.
    spec fn prefix(&self) -> Seq<char>;

    /// The address the collector fetches for a station URL.
    spec fn target_of(&self, url: Seq<char>) -> Result<Seq<char>, DownloadError>;

    /// The reading a fetched document gives.
    spec fn reading(&self, doc: Self::Document) -> Result<Reading, DownloadError>;

    fn base_url(&self) -> (r: String)
        ensures
            r@ == self.prefix(),
    ;

    fn request_url(&self, url: &str) -> (r: Result<String, DownloadError>)
        ensures
            match r {
                Ok(t) => self.target_of(url@) == Ok::<Seq<char>, DownloadError>(t@),
                Err(e) => self.target_of(url@) == Err::<Seq<char>, DownloadError>(e),
            },
    ;

    fn try_download(&self, doc: &Self::Document) -> (r: Result<Measurements, DownloadError>)
        ensures
            outcome_view(r) == self.reading(*doc),
            r matches Ok(m) ==> valid_reading(m@),
    ;

    /// The reading of the fetched document, or the all-absent record when the
    /// fetch or the reading failed.
    fn download(&self, fetched: Result<Self::Document, DownloadError>) -> (m: Measurements)
        ensures
            m@ == match fetched {
                Ok(d) => settled(self.reading(d)),
                Err(_) => absent(),
            },
            valid_reading(m@),
    ;
}

impl Downloader for AemetDownloader {
    type Document = Vec<u8>;

    open spec fn prefix(&self) -> Seq<char> {
        crate::aemet::BASE_URL@
    }

    open spec fn target_of(&self, url: Seq<char>) -> Result<Seq<char>, DownloadError> {
        Ok(url + "&w=0&datos=det"@)
    }

    open spec fn reading(&self, doc: Self::Document) -> Result<Reading, DownloadError> {
        crate::aemet::page_reading(utf8_lossy_of(doc@))
    }

    fn base_url(&self) -> (r: String) {
        AemetDownloader::base_url(self)
    }

    fn request_url(&self, url: &str) -> Result<String, DownloadError> {
        Ok(Self::request_url(self, url))
    }

    fn try_download(&self, doc: &Vec<u8>) -> Result<Measurements, DownloadError> {
        Self::try_download(self, doc.as_slice())
    }

    fn download(&self, fetched: Result<Vec<u8>, DownloadError>) -> (m: Measurements) {
        Self::download(self, fetched)
    }
}

impl Downloader for MeteocatDownloader {
    type Document = Vec<u8>;

    open spec fn prefix(&self) -> Seq<char> {
        crate::meteocat::BASE_URL@
    }

    open spec fn target_of(&self, url: Seq<char>) -> Result<Seq<char>, DownloadError> {
        Ok(url)
    }

    open spec fn reading(&self, doc: Self::Document) -> Result<Reading, DownloadError> {
        crate::meteocat::page_reading(utf8_lossy_of(doc@))
    }

    fn base_url(&self) -> (r: String) {
        MeteocatDownloader::base_url(self)
    }

    fn request_url(&self, url: &str) -> Result<String, DownloadError> {
        Ok(Self::request_url(self, url))
    }

    fn try_download(&self, doc: &Vec<u8>) -> Result<Measurements, DownloadError> {
        Self::try_download(self, doc.as_slice())
    }

    fn download(&self, fetched: Result<Vec<u8>, DownloadError>) -> (m: Measurements) {
        Self::download(self, fetched)
    }
}

impl Downloader for MeteoclimaticDownloader {
    type Document = Vec<u8>;

    open spec fn prefix(&self) -> Seq<char> {
        crate::meteoclimatic::BASE_URL@
    }

    open spec fn target_of(&self, url: Seq<char>) -> Result<Seq<char>, DownloadError> {
        Ok(url)
    }

    open spec fn reading(&self, doc: Self::Document) -> Result<Reading, DownloadError> {
        crate::meteoclimatic::body_reading(doc@)
    }

    fn base_url(&self) -> (r: String) {
        MeteoclimaticDownloader::base_url(self)
    }

    fn request_url(&self, url: &str) -> Result<String, DownloadError> {
        Ok(Self::request_url(self, url))
    }

    fn try_download(&self, doc: &Vec<u8>) -> Result<Measurements, DownloadError> {
        Self::try_download(self, doc.as_slice())
    }

    fn download(&self, fetched: Result<Vec<u8>, DownloadError>) -> (m: Measurements) {
        Self::download(self, fetched)
    }
}

impl Downloader for WeatherlinkDownloader {
    type Document = WeatherlinkPayload;

    open spec fn prefix(&self) -> Seq<char> {
        crate::weatherlink::BASE_URL@
    }

    open spec fn target_of(&self, url: Seq<char>) -> Result<Seq<char>, DownloadError> {
        crate::weatherlink::data_url(url)
    }

    open spec fn reading(&self, doc: Self::Document) -> Result<Reading, DownloadError> {
        crate::weatherlink::payload_reading(doc)
    }

    fn base_url(&self) -> (r: String) {
        WeatherlinkDownloader::base_url(self)
    }

    fn request_url(&self, url: &str) -> Result<String, DownloadError> {
        Self::request_url(self, url)
    }

    fn try_download(&self, doc: &WeatherlinkPayload) -> Result<Measurements, DownloadError> {
        WeatherlinkDownloader::reading_from_payload(doc)
    }

    fn download(&self, fetched: Result<WeatherlinkPayload, DownloadError>) -> (m:
        Measurements) {
        Self::download(self, fetched)
    }
}

impl Downloader for OpenWindMapDownloader {
    type Document = OpenWindMapPayload;

    open spec fn prefix(&self) -> Seq<char> {
        crate::openwindmap::BASE_URL@
    }

    open spec fn target_of(&self, url: Seq<char>) -> Result<Seq<char>, DownloadError> {
        crate::openwindmap::data_url(url)
    }

    open spec fn reading(&self, doc: Self::Document) -> Result<Reading, DownloadError> {
        crate::openwindmap::payload_reading(doc)
    }

    fn base_url(&self) -> (r: String) {
        OpenWindMapDownloader::base_url(self)
    }

    fn request_url(&self, url: &str) -> Result<String, DownloadError> {
        Self::request_url(self, url)
    }

    fn try_download(&self, doc: &OpenWindMapPayload) -> Result<Measurements, DownloadError> {
        OpenWindMapDownloader::reading_from_payload(doc)
    }

    fn download(&self, fetched: Result<OpenWindMapPayload, DownloadError>) -> (m:
        Measurements) {
        Self::download(self, fetched)
    }
}

} // verus!
