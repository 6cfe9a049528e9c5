//! The single operation the presentation shell invokes, and the
//! display state it folds the outcome into.

use vstd::prelude::*;

use crate::identifier::digest_spec;
use crate::prober::{probe, probe_spec, NoHardwareInfo, SourceReadings};

verus! {

/// Probe the gathered source readings and condense the raw identifier
/// into its digest: 64 lowercase hex characters, or the probe's
/// failure when every tier came up empty.
pub fn get_hardware_identifier(r: &SourceReadings) -> (res: Result<String, NoHardwareInfo>)
    ensures
        probe_spec(*r).len() > 0 ==> (res matches Ok(d) && d@ == digest_spec(probe_spec(*r))
            && d@.len() == 64),
        probe_spec(*r).len() == 0 ==> res is Err,
{
    match probe(r) {
        Ok(raw) => Ok(raw.digest()),
        Err(e) => Err(e),
    }
}

/// Display state of the presentation shell: the derived identifier,
/// or the failure text to show instead.
pub struct HWIDApp {
    /// The derived identifier; empty when the pipeline failed.
    pub hwid: String,
    /// The failure text; `None` when the pipeline succeeded.
    pub error_message: Option<String>,
}

impl HWIDApp {
    /// Fold the pipeline's outcome into display state: the identifier
    /// and no error on success, an empty identifier and the failure
    /// text otherwise.
    pub fn new(outcome: Result<String, String>) -> (r: Self)
        ensures
            outcome matches Ok(id) ==> r.hwid@ == id@ && r.error_message is None,
            outcome matches Err(m) ==> r.hwid@.len() == 0 && (r.error_message matches Some(e)
                && e@ == m@),
    {
        match outcome {
            Ok(id) => HWIDApp { hwid: id, error_message: None },
            Err(m) => HWIDApp { hwid: String::new(), error_message: Some(m) },
        }
    }
}

} // verus!
