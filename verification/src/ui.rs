//! Stage callbacks for long-running steps.
use vstd::prelude::*;

verus! {

/// A stage callback that does nothing, for callers that show no progress.
pub fn noop_progress(_message: &str) {
}

} // verus!
