use vstd::prelude::*;

verus! {

/// A station of a user's configuration: a label and the URL of its page.
#[derive(Clone, Debug)]
pub struct ConfigStation {
    pub label: String,
    pub url: String,
}

/// A column of a user's configuration: a label and the key of the field shown.
#[derive(Clone, Debug)]
pub struct ConfigMeasurement {
    pub label: String,
    pub key: String,
}

/// The stations to read and the columns to show.
#[derive(Clone, Debug)]
pub struct Config {
    pub stations: Vec<ConfigStation>,
    pub measurements: Vec<ConfigMeasurement>,
}

/// One cell of the table of readings.
#[derive(Clone, Debug)]
pub enum CellValue {
    /// A link: its text and its target.
    Link(String, String),
    Text(String),
    NotAvailable,
}

impl Config {
    /// The station URLs, in the configuration's order: the batch to request.
    pub fn station_urls(&self) -> (r: Vec<String>)
        ensures
            r@.len() == self.stations@.len(),
            forall|i: int| 0 <= i < r@.len() ==> #[trigger] r@[i]@ == self.stations@[i].url@,
    {
        let mut r: Vec<String> = Vec::new();
        let mut i: usize = 0;
        while i < self.stations.len()
            invariant
                i <= self.stations@.len(),
                r@.len() == i,
                forall|k: int| 0 <= k < i ==> #[trigger] r@[k]@ == self.stations@[k].url@,
            decreases self.stations@.len() - i,
        {
            r.push(self.stations[i].url.clone());
            i = i + 1;
        }
        r
    }
}

} // verus!
