use crate::aemet::{page_reading as aemet_reading, AemetDownloader};
use crate::fields::settled;
use crate::measurements::{absent, DownloadError, Measurements, Reading};
use crate::meteocat::{page_reading as meteocat_reading, MeteocatDownloader};
use crate::html::utf8_lossy_of;
use crate::meteoclimatic::{body_reading, MeteoclimaticDownloader};
use crate::openwindmap::{
    data_url as openwindmap_url, payload_reading as openwindmap_reading, OpenWindMapDownloader,
    OpenWindMapPayload,
};
use crate::text::{chars_of, has_prefix, strip_prefix};
use crate::weatherlink::{
    data_url as weatherlink_url, payload_reading as weatherlink_reading, WeatherlinkDownloader,
    WeatherlinkPayload,
};
use vstd::prelude::*;

verus! {

/// The most station URLs one batch may hold.
pub const MAX_NUMBER_OF_MEASUREMENTS: usize = 50;

/// The most fetches in flight at once; set above the batch limit, so that a
/// batch runs fully in parallel.
pub const MAX_CONCURRENT_DOWNLOADS: usize = 100;

/// The station sources, in the order in which their prefixes are tried.
#[derive(Clone, Copy, Debug, PartialEq, Eq)]
pub enum Source {
    Aemet,
    Meteocat,
    Meteoclimatic,
    Weatherlink,
    OpenWindMap,
}

/// What `str::to_lowercase` makes of a text.
pub uninterp spec fn lowercase_of(s: Seq<char>) -> Seq<char>;

/// Relies on `str::to_lowercase`: the result depends on the characters alone.
#[verifier::external_body]
fn lowercase(s: &str) -> (r: String)
    ensures
        r@ == lowercase_of(s@),
{
    s.to_lowercase()
}

pub open spec fn prefix_of(s: Source) -> Seq<char> {
    match s {
        Source::Aemet => crate::aemet::BASE_URL@,
        Source::Meteocat => crate::meteocat::BASE_URL@,
        Source::Meteoclimatic => crate::meteoclimatic::BASE_URL@,
        Source::Weatherlink => crate::weatherlink::BASE_URL@,
        Source::OpenWindMap => crate::openwindmap::BASE_URL@,
    }
}

/// The first source, in declared order, whose prefix begins a lower-cased URL.
pub open spec fn source_of_lowered(lower: Seq<char>) -> Option<Source> {
    if has_prefix(lower, prefix_of(Source::Aemet)) {
        Some(Source::Aemet)
    } else if has_prefix(lower, prefix_of(Source::Meteocat)) {
        Some(Source::Meteocat)
    } else if has_prefix(lower, prefix_of(Source::Meteoclimatic)) {
        Some(Source::Meteoclimatic)
    } else if has_prefix(lower, prefix_of(Source::Weatherlink)) {
        Some(Source::Weatherlink)
    } else if has_prefix(lower, prefix_of(Source::OpenWindMap)) {
        Some(Source::OpenWindMap)
    } else {
        None
    }
}

/// The source of a station URL: scheme and host are case-insensitive, so the URL
/// is lower-cased before the prefixes are compared.
pub open spec fn source_of(url: Seq<char>) -> Option<Source> {
    source_of_lowered(lowercase_of(url))
}

fn starts_with(s: &Vec<char>, prefix: &str) -> (r: bool)
    ensures
        r == has_prefix(s@, prefix@),
{
    strip_prefix(s, prefix).is_some()
}

/// The source whose prefix begins an already lower-cased URL, as
/// [`source_of_lowered`] states it.
pub fn source_for_lowered(lower: &str) -> (r: Option<Source>)
    ensures
        r == source_of_lowered(lower@),
{
    let s = chars_of(lower);
    if starts_with(&s, crate::aemet::BASE_URL) {
        Some(Source::Aemet)
    } else if starts_with(&s, crate::meteocat::BASE_URL) {
        Some(Source::Meteocat)
    } else if starts_with(&s, crate::meteoclimatic::BASE_URL) {
        Some(Source::Meteoclimatic)
    } else if starts_with(&s, crate::weatherlink::BASE_URL) {
        Some(Source::Weatherlink)
    } else if starts_with(&s, crate::openwindmap::BASE_URL) {
        Some(Source::OpenWindMap)
    } else {
        None
    }
}

/// The source of a station URL, as [`source_of`] states it.
pub fn source_for(url: &str) -> (r: Option<Source>)
    ensures
        r == source_of(url@),
{
    let lower = lowercase(url);
    source_for_lowered(lower.as_str())
}

/// What to do for one station URL.
#[derive(Clone, Debug)]
pub enum Job {
    /// No source claims the URL: its record is the all-absent one, and nothing is fetched.
    Unsupported,
    /// The source could not make a fetch address from the URL.
    Failed(Source, DownloadError),
    /// Fetch this address and hand the result to the source.
    Fetch(Source, String),
}

/// The address a source fetches for a station URL.
pub open spec fn target_of(src: Source, url: Seq<char>) -> Result<Seq<char>, DownloadError> {
    match src {
        Source::Aemet => Ok(url + "&w=0&datos=det"@),
        Source::Meteocat => Ok(url),
        Source::Meteoclimatic => Ok(url),
        Source::Weatherlink => weatherlink_url(url),
        Source::OpenWindMap => openwindmap_url(url),
    }
}

/// Whether `job` is the job for `url`.
pub open spec fn is_job_for(job: Job, url: Seq<char>) -> bool {
    match source_of(url) {
        None => job is Unsupported,
        Some(src) => match target_of(src, url) {
            Ok(t) => job matches Job::Fetch(s, a) && s == src && a@ == t,
            Err(e) => job == Job::Failed(src, e),
        },
    }
}

/// Picks the collector of a station URL and the address it fetches.
pub fn dispatch(url: &str) -> (r: Job)
    ensures
        is_job_for(r, url@),
{
    match source_for(url) {
        None => Job::Unsupported,
        Some(Source::Aemet) => Job::Fetch(Source::Aemet, AemetDownloader {}.request_url(url)),
        Some(Source::Meteocat) => Job::Fetch(
            Source::Meteocat,
            MeteocatDownloader {}.request_url(url),
        ),
        Some(Source::Meteoclimatic) => Job::Fetch(
            Source::Meteoclimatic,
            MeteoclimaticDownloader {}.request_url(url),
        ),
        Some(Source::Weatherlink) => match (WeatherlinkDownloader {}).request_url(url) {
            Ok(t) => Job::Fetch(Source::Weatherlink, t),
            Err(e) => Job::Failed(Source::Weatherlink, e),
        },
        Some(Source::OpenWindMap) => match (OpenWindMapDownloader {}).request_url(url) {
            Ok(t) => Job::Fetch(Source::OpenWindMap, t),
            Err(e) => Job::Failed(Source::OpenWindMap, e),
        },
    }
}

/// Why a batch request is refused before any fetch starts.
#[derive(Clone, Copy, Debug, PartialEq, Eq)]
pub enum BatchError {
    /// More station URLs than [`MAX_NUMBER_OF_MEASUREMENTS`].
    TooMany,
}

/// The jobs of a batch, one per URL and in the same order; a batch over the
/// limit is refused whole.
pub fn plan_batch(urls: &Vec<String>) -> (r: Result<Vec<Job>, BatchError>)
    ensures
        r is Err <==> urls@.len() > MAX_NUMBER_OF_MEASUREMENTS,
        r matches Err(e) ==> e == BatchError::TooMany,
        r matches Ok(jobs) ==> jobs@.len() == urls@.len() && forall|i: int|
            0 <= i < urls@.len() ==> is_job_for(#[trigger] jobs@[i], urls@[i]@),
{
    if urls.len() > MAX_NUMBER_OF_MEASUREMENTS {
        return Err(BatchError::TooMany);
    }
    let mut jobs: Vec<Job> = Vec::new();
    let mut i: usize = 0;
    while i < urls.len()
        invariant
            i <= urls@.len(),
            jobs@.len() == i,
            forall|k: int| 0 <= k < i ==> is_job_for(#[trigger] jobs@[k], urls@[k]@),
        decreases urls@.len() - i,
    {
        jobs.push(dispatch(urls[i].as_str()));
        i = i + 1;
    }
    Ok(jobs)
}

/// What a fetch brought back for a job, decoded as its source needs.
#[derive(Clone, Debug)]
pub enum Fetched {
    /// Nothing was fetched: the job was not a fetch.
    Skipped,
    /// The fetch failed.
    Failed(DownloadError),
    /// The body of an HTML page.
    Page(Vec<u8>),
    /// A decoded WeatherLink data document.
    Weatherlink(WeatherlinkPayload),
    /// A decoded OpenWindMap live-data document.
    OpenWindMap(OpenWindMapPayload),
}

/// Whether `m` is the record that `job` settles to once `fetched` is in.
pub open spec fn completes(job: Job, fetched: Fetched, m: Reading) -> bool {
    match job {
        Job::Fetch(src, _) => match (src, fetched) {
            (Source::Aemet, Fetched::Page(b)) => m == settled(
                aemet_reading(utf8_lossy_of(b@)),
            ),
            (Source::Meteocat, Fetched::Page(b)) => m == settled(
                meteocat_reading(utf8_lossy_of(b@)),
            ),
            (Source::Meteoclimatic, Fetched::Page(b)) => m == settled(body_reading(b@)),
            (Source::Weatherlink, Fetched::Weatherlink(p)) => m == settled(weatherlink_reading(p)),
            (Source::OpenWindMap, Fetched::OpenWindMap(p)) => m == settled(openwindmap_reading(p)),
            _ => m == absent(),
        },
        _ => m == absent(),
    }
}

/// The record of one job: the source's reading, or the all-absent record when
/// the URL is unsupported, no address could be made, or the fetch failed.
pub fn complete(job: &Job, fetched: Fetched) -> (m: Measurements)
    ensures
        completes(*job, fetched, m@),
{
    match job {
        Job::Fetch(src, _) => match (src, fetched) {
            (Source::Aemet, Fetched::Page(b)) => AemetDownloader {}.download(Ok(b)),
            (Source::Meteocat, Fetched::Page(b)) => MeteocatDownloader {}.download(Ok(b)),
            (Source::Meteoclimatic, Fetched::Page(b)) => MeteoclimaticDownloader {}.download(Ok(b)),
            (Source::Weatherlink, Fetched::Weatherlink(p)) => WeatherlinkDownloader {}.download(
                Ok(p),
            ),
            (Source::OpenWindMap, Fetched::OpenWindMap(p)) => OpenWindMapDownloader {}.download(
                Ok(p),
            ),
            _ => Measurements::empty(),
        },
        _ => Measurements::empty(),
    }
}

/// Joins the fetch results back into the positions of their jobs: the record at
/// position `i` is the one that job `i` settles to, whatever order the fetches
/// finished in.
pub fn assemble(jobs: &Vec<Job>, fetched: Vec<Fetched>) -> (r: Vec<Measurements>)
    requires
        fetched@.len() == jobs@.len(),
    ensures
        r@.len() == jobs@.len(),
        forall|i: int| 0 <= i < jobs@.len() ==> completes(jobs@[i], fetched@[i], #[trigger] r@[i]@),
{
    let mut r: Vec<Measurements> = Vec::new();
    let mut rest = fetched;
    let ghost all = rest@;
    let mut i: usize = 0;
    let mut results: Vec<Fetched> = Vec::new();
    while rest.len() > 0
        invariant
            results@.len() + rest@.len() == all.len(),
            forall|k: int| 0 <= k < results@.len() ==> results@[k] == all[all.len() - 1 - k],
            rest@ == all.subrange(0, rest@.len() as int),
        decreases rest@.len(),
    {
        let f = rest.pop().unwrap();
        results.push(f);
    }
    while i < jobs.len()
        invariant
            i <= jobs@.len() == all.len(),
            results@.len() == all.len() - i,
            forall|k: int| 0 <= k < results@.len() ==> results@[k] == all[all.len() - 1 - k],
            r@.len() == i,
            forall|k: int| 0 <= k < i ==> completes(jobs@[k], all[k], #[trigger] r@[k]@),
        decreases jobs@.len() - i,
    {
        let f = results.pop().unwrap();
        r.push(complete(&jobs[i], f));
        i = i + 1;
    }
    r
}

/// A URL that no source claims settles to the all-absent record, whatever the
/// fetch step handed back for it, and nothing is fetched for it.
pub proof fn lemma_unknown_station_is_empty(url: Seq<char>, job: Job, fetched: Fetched, m: Reading)
    requires
        source_of(url) is None,
        is_job_for(job, url),
        completes(job, fetched, m),
    ensures
        m == absent(),
        job is Unsupported,
{
}

/// A batch keeps its shape: for jobs planned from the URLs and one fetch result
/// per job, the records number as the URLs, record `i` is what the job of URL `i`
/// settles to, whichever fetch finished first, and a URL that no source claims
/// gives the all-absent record while every other position keeps its own.
pub proof fn lemma_batch_is_positional(
    urls: Seq<String>,
    jobs: Seq<Job>,
    fetched: Seq<Fetched>,
    out: Seq<Measurements>,
)
    requires
        jobs.len() == urls.len(),
        forall|i: int| 0 <= i < urls.len() ==> is_job_for(#[trigger] jobs[i], urls[i]@),
        fetched.len() == jobs.len(),
        out.len() == jobs.len(),
        forall|i: int| 0 <= i < jobs.len() ==> completes(jobs[i], fetched[i], #[trigger] out[i]@),
    ensures
        out.len() == urls.len(),
        forall|i: int|
            0 <= i < urls.len() ==> is_job_for(jobs[i], urls[i]@) && completes(
                jobs[i],
                fetched[i],
                #[trigger] out[i]@,
            ),
        forall|i: int|
            0 <= i < urls.len() && source_of(urls[i]@) is None ==> #[trigger] out[i]@
                == absent(),
{
    assert forall|i: int| 0 <= i < urls.len() && source_of(urls[i]@) is None implies #[trigger] out[i]@
        == absent() by {
        assert(is_job_for(jobs[i], urls[i]@));
        lemma_unknown_station_is_empty(urls[i]@, jobs[i], fetched[i], out[i]@);
    }
}

} // verus!
