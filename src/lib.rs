//! Collects weather readings from several station sources and normalises them
//! into one record with fixed units.
use vstd::prelude::*;

pub mod aemet;
pub mod compass;
pub mod config;
pub mod decimal;
pub mod dispatch;
pub mod downloader;
pub mod fields;
pub mod html;
pub mod measurements;
pub mod meteocat;
pub mod meteoclimatic;
pub mod openwindmap;
pub mod pattern;
pub mod scan;
pub mod text;
pub mod timestamp;
pub mod weatherlink;
pub mod wire;

pub use aemet::AemetDownloader;
pub use compass::wind_direction_name;
pub use config::{CellValue, Config, ConfigMeasurement, ConfigStation};
pub use decimal::Decimal;
pub use downloader::Downloader;
pub use dispatch::{assemble, dispatch, plan_batch, BatchError, Fetched, Job, Source};
pub use measurements::{get_units, DownloadError, Measurements};
pub use meteocat::MeteocatDownloader;
pub use meteoclimatic::MeteoclimaticDownloader;
pub use openwindmap::{OpenWindMapDownloader, OpenWindMapPayload};
pub use weatherlink::{WeatherlinkDownloader, WeatherlinkPayload};
pub use wire::WireValue;

verus! {

} // verus!
