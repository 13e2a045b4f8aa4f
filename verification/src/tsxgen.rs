//! Configuration for rendering a chart module from a template.
use vstd::prelude::*;

verus! {

/// An error raised while generating chart modules.
#[derive(Debug, Clone)]
pub struct TsxGenError {
    pub msg: String,
}

impl TsxGenError {
    pub fn new(msg: String) -> (r: TsxGenError)
        ensures
            r.msg == msg,
    {
        TsxGenError { msg }
    }
}

/// Where the chart-module template lives. Rendering the template reads
/// it from disk and writes the rendered file, so the calling program
/// performs it; the library carries the configuration.
pub struct TsxGenerator {
    pub template_path: String,
}

impl TsxGenerator {
    pub fn new(template_path: String) -> (r: TsxGenerator)
        ensures
            r.template_path == template_path,
    {
        TsxGenerator { template_path }
    }
}

} // verus!
