//! The value type describing one candidate directory.

use vstd::prelude::*;

verus! {

/// One candidate directory, with the metadata the selector ranks by.
///
/// Timestamps are seconds since the Unix epoch.  The score is carried as
/// an order-preserving sort key supplied by the scoring layer: a larger
/// key means a better score, and a key of zero means no match.
#[derive(Clone, Debug)]
pub struct TryDir {
    /// Directory base name, the display and match key.
    pub basename: String,
    /// Absolute path of the directory.
    pub path: String,
    /// Creation time, when available.
    pub ctime: Option<u64>,
    /// Modification time, when available.
    pub mtime: Option<u64>,
    /// Order-preserving key of the computed score.
    pub score_key: u64,
}

} // verus!
