//! Fault taxonomy.
//!
//! Per-item faults (one corrupt file, one recoverable packet) are
//! absorbed into degraded local state by the operation that meets
//! them; per-operation faults abort the operation and are surfaced
//! once, as a single value of this type.

use vstd::prelude::*;

verus! {

/// The fault categories an operation can surface.
#[derive(Clone, Copy, Debug, PartialEq, Eq, Structural)]
pub enum Fault {
    /// A malformed tag identifier.
    Validation,
    /// A truncated or corrupt container header region.
    HeaderDecode,
    /// No decodable audio track was found in an input.
    UnsupportedMedia,
    /// A fatal mid-stream decode error.
    Decode,
    /// A filesystem or network failure.
    Io,
    /// The catalog could not be reached; never blocks an operation.
    CatalogUnavailable,
}

/// What each fault reads as.
pub open spec fn spec_describe(f: Fault) -> Seq<char> {
    match f {
        Fault::Validation => "invalid tag ID"@,
        Fault::HeaderDecode => "corrupt container header"@,
        Fault::UnsupportedMedia => "no supported audio track found"@,
        Fault::Decode => "fatal decode error"@,
        Fault::Io => "I/O error"@,
        Fault::CatalogUnavailable => "catalog unavailable"@,
    }
}

impl Fault {
    /// A short description of the fault.
    pub fn describe(&self) -> (r: &'static str)
        ensures
            r@ == spec_describe(*self),
    {
        match self {
            Fault::Validation => "invalid tag ID",
            Fault::HeaderDecode => "corrupt container header",
            Fault::UnsupportedMedia => "no supported audio track found",
            Fault::Decode => "fatal decode error",
            Fault::Io => "I/O error",
            Fault::CatalogUnavailable => "catalog unavailable",
        }
    }
}

} // verus!
