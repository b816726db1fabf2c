//! The engine's error taxonomy.
//!
//! A `Shape` error is raised once, while a record type is being described,
//! and names the offending field; a `Conversion` error aborts a single row
//! or batch conversion atomically. A third conceivable kind of failure —
//! an internal mismatch between the number of values produced and the
//! number of columns expected — needs no variant: the converters are
//! proved to produce exactly one leaf per compiled column.

use vstd::prelude::*;

verus! {

/// What went wrong, and where it was detected.
#[derive(PartialEq, Eq, Debug)]
pub enum Error {
    /// A field's type cannot be described as columns; detected while the
    /// type descriptor is built, before any instance is converted.
    Shape { field: String },
    /// A value did not fit its descriptor while a row or batch was being
    /// materialized; the whole call is abandoned.
    Conversion,
}

} // verus!
