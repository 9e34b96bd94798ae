use vstd::prelude::*;

verus! {

/// A fatal ingestion failure. Every variant aborts the run: malformed input
/// is treated as upstream data corruption rather than something to skip, and
/// store failures leave recovery to the resume cursor of the next run.
///
/// The `position` carried by the decode variants is the zero-based ordinal
/// of the offending record in the full input stream; `raw` is the field text
/// as it was read.
#[derive(Debug)]
pub enum IngestError {
    /// The timestamp field did not match the expected shape.
    MalformedTimestamp { position: usize, raw: String },
    /// The color field was not a marker character followed by hex digits
    /// encoding a 24-bit value.
    MalformedColor { position: usize, raw: String },
    /// The coordinate field did not hold exactly two or four integers.
    MalformedCoordinates { position: usize, raw: String },
    /// The input header lacks one of the required field names.
    HeaderMissing { name: String },
    /// The store could not be reached.
    StoreUnavailable { detail: String },
    /// The store rejected a write, or a loaded user snapshot was not the
    /// dense, duplicate-free registry the store is required to uphold.
    ConstraintViolation { detail: String },
}

} // verus!
