//! Aggregation of raw benchmark observations into indexed numeric
//! series with descriptive statistics, regression trend lines and
//! smoothed density curves, ready for a chart-rendering front end.
//!
//! Measurements are IEEE-754 binary64 values carried as their bit
//! patterns; see `fbits` for the model of the arithmetic on them.
use vstd::prelude::*;

pub mod collect;
pub mod cplot;
pub mod decfmt;
pub mod fbits;
pub mod infomap;
pub mod intmap;
pub mod rawdata;
pub mod stats;
pub mod strmap;
pub mod textkey;
pub mod timeunit;
pub mod tsxdata;
pub mod tsxgen;

verus! {

/// A path that does not name a directory that output can be written
/// into.
#[derive(Debug, Clone)]
pub struct InvalidPath {
    pub path: String,
}

impl InvalidPath {
    pub fn new(path: &str) -> (r: InvalidPath)
        ensures
            r.path@ == path@,
    {
        InvalidPath { path: path.to_owned() }
    }
}

} // verus!
