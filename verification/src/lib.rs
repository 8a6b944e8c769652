//! Verified core of a desktop launcher that tracks user-chosen executables,
//! groups them into categories, and persists the catalog as a JSON document.
//!
//! The library holds the logic worth proving: path classification and
//! validation verdicts, update detection with confidence grading, icon pixel
//! processing (BGRA to RGBA with mask-based alpha reconstruction), legacy
//! inline-icon migration, and batch mutations that never let one failure
//! abort the rest.  The thin shell around it (file and registry access,
//! process spawning, window plumbing) lives outside and hands the library
//! plain values.

use vstd::prelude::*;

pub mod catalog;
pub mod codec;
pub mod config_store;
pub mod icon_extractor;
pub mod maintenance;
pub mod models;
pub mod path_validator;
pub mod sequtil;
pub mod strutil;
pub mod update_checker;

verus! {

/// The error taxonomy of the maintenance core.
///
/// Single-entity operations surface these directly; batch operations fold
/// per-item failures into their result structure instead.
#[derive(Debug)]
pub enum CoreError {
    /// An entry or category id that the catalog does not hold.
    NotFound,
    /// A filesystem read or write failed; carries the underlying reason.
    IOError(String),
    /// An icon resource was missing or a raster could not be built from it.
    ExtractionError(String),
    /// An operation that is meaningful only on one platform was invoked
    /// elsewhere.
    PlatformUnsupported,
}

impl CoreError {
    /// A readable rendering of the error, standing in for `Display`, which
    /// a verified type cannot implement.
    pub fn message(&self) -> (r: String)
        ensures
            self is NotFound ==> r@ == "not found"@,
            self matches CoreError::IOError(m) ==> r@ == "I/O failure: "@ + m@,
            self matches CoreError::ExtractionError(m) ==> r@ == "icon extraction failed: "@
                + m@,
            self is PlatformUnsupported ==> r@
                == "this operation is available on one platform only"@,
    {
        match self {
            CoreError::NotFound => String::from_str("not found"),
            CoreError::IOError(m) => {
                let mut s = String::from_str("I/O failure: ");
                s.append(m.as_str());
                s
            },
            CoreError::ExtractionError(m) => {
                let mut s = String::from_str("icon extraction failed: ");
                s.append(m.as_str());
                s
            },
            CoreError::PlatformUnsupported => String::from_str(
                "this operation is available on one platform only",
            ),
        }
    }
}

} // verus!
