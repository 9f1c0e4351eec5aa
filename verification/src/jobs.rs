//! Single ECU jobs: their parameters and code files.
use vstd::prelude::*;

verus! {

/// Long name of a job parameter with its text id.
#[derive(Debug, Clone)]
pub struct LongName {
    pub value: Option<String>,
    pub ti: Option<String>,
}

/// A parameter of a single ECU job.
#[derive(Debug, Clone)]
pub struct Param {
    pub short_name: String,
    pub physical_default_value: Option<String>,
    pub semantic: Option<String>,
    pub long_name: Option<LongName>,
}

/// A code file of a single ECU job.
#[derive(Debug, Clone)]
pub struct ProgCode {
    pub code_file: String,
    pub encryption: Option<String>,
    pub syntax: Option<String>,
    pub revision: String,
    pub entrypoint: String,
}

/// A single ECU job: its input, output and negative output parameters and its code files.
#[derive(Debug, Clone)]
pub struct Job {
    pub input_params: Vec<Param>,
    pub output_params: Vec<Param>,
    pub neg_output_params: Vec<Param>,
    pub prog_codes: Vec<ProgCode>,
}

} // verus!
