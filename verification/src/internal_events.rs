//! The observability events the split transform raises.
//!
//! Emitting them — incrementing counters, writing rate-limited log lines —
//! is the host's I/O and lives with the host; these types carry what one
//! emission needs.

use vstd::prelude::*;

verus! {

/// One event went through the split transform.
#[derive(Debug)]
pub struct SplitEventProcessed;

/// The field the split transform was to read does not exist on the event.
#[derive(Debug)]
pub struct SplitFieldMissing<'a> {
    pub field: &'a str,
}

/// A split part could not be converted to the type configured for its
/// field; `error` is the conversion failure's description.
#[derive(Debug)]
pub struct SplitConvertFailed<'a> {
    pub field: &'a str,
    pub error: String,
}

} // verus!
