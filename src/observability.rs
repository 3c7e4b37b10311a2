//! Records handed to the telemetry sink.
use vstd::prelude::*;
use crate::unique_keys;

verus! {

/// One span of a distributed trace. Times are microseconds.
#[derive(Clone, Debug)]
pub struct Trace {
    pub trace_id: String,
    pub span_id: String,
    pub parent_id: Option<String>,
    pub name: String,
    pub start_time: u64,
    pub duration: u64,
    /// Attributes by name; names are unique.
    pub attributes: Vec<(String, String)>,
}

impl Trace {
    /// Attribute names are unique.
    pub open spec fn wf(&self) -> bool {
        unique_keys(self.attributes@)
    }
}

} // verus!
