//! Path classification and reachability verdicts.
//!
//! The shell probes the filesystem and hands the outcome over as a
//! [`PathProbe`]; everything decided from it is verified here.

use vstd::prelude::*;

verus! {

/// What the filesystem reports of a target path; the shell gathers this
/// and the validator turns it into a verdict.
pub enum PathProbe {
    /// The target does not exist.
    Missing,
    /// The target exists but its metadata cannot be read; carries the OS
    /// error text.
    Inaccessible(String),
    /// The target's metadata could be read: size in bytes and modification
    /// time in epoch seconds.
    Readable { size: u64, modified: u64 },
}

/// True of a UNC path: one that begins with a doubled path separator.
pub open spec fn is_unc(s: Seq<char>) -> bool {
    s.len() >= 2 && s[0] == '\\' && s[1] == '\\'
}

/// The storage-medium label of a path: `network` for a UNC path, otherwise
/// `local`.  Removable media cannot be told apart from the path alone, so
/// they collapse to `local`.
pub open spec fn path_type_of(s: Seq<char>) -> Seq<char> {
    if is_unc(s) {
        "network"@
    } else {
        "local"@
    }
}

/// Classifies a target path's storage medium.
pub fn detect_path_type(path: &str) -> (r: String)
    ensures
        r@ == path_type_of(path@),
{
    if path.unicode_len() >= 2 && path.get_char(0) == '\\' && path.get_char(1) == '\\' {
        String::from_str("network")
    } else {
        String::from_str("local")
    }
}

/// The lightweight file fingerprint a probe yields: the (size,
/// modified-time) pair when metadata was readable, absent otherwise.
pub fn file_fingerprint(probe: &PathProbe) -> (r: Option<(u64, u64)>)
    ensures
        match probe {
            PathProbe::Readable { size, modified } => r == Some::<(u64, u64)>((*size, *modified)),
            _ => r is None,
        },
{
    match probe {
        PathProbe::Readable { size, modified } => Some((*size, *modified)),
        _ => None,
    }
}

/// The validation verdict on a target path, given what the filesystem
/// reports of it: `(isValid, reason, pathType)`.
///
/// A missing target is invalid with reason `missing`; an unreadable one is
/// invalid with `inaccessible: ` and the OS error; a readable one is valid
/// with no reason.  The storage classification is present in every case.
pub fn validate_app_path(path: &str, probe: &PathProbe) -> (r: (bool, Option<String>, Option<
    String,
>))
    ensures
        r.2 matches Some(t) && t@ == path_type_of(path@),
        probe is Missing ==> !r.0 && (r.1 matches Some(m) && m@ == "missing"@),
        probe matches PathProbe::Inaccessible(e) ==> !r.0 && (r.1 matches Some(m) && m@
            == "inaccessible: "@ + e@),
        probe is Readable ==> r.0 && r.1 is None,
{
    let path_type = detect_path_type(path);
    match probe {
        PathProbe::Missing => (false, Some(String::from_str("missing")), Some(path_type)),
        PathProbe::Inaccessible(e) => {
            let mut reason = String::from_str("inaccessible: ");
            reason.append(e.as_str());
            (false, Some(reason), Some(path_type))
        },
        PathProbe::Readable { .. } => (true, None, Some(path_type)),
    }
}

} // verus!
