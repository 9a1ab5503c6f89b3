//! The failures that end a run.

use vstd::prelude::*;

verus! {

/// A fatal failure. Each one ends the run for its camera; the caller decides
/// whether to start over.
#[derive(Clone, Copy, Debug, PartialEq, Eq, Structural)]
pub enum Error {
    /// The source could not be opened. No file has been created.
    FailedToConnect,
    /// A session could not be created: its folder, its file or its header
    /// failed, or no name or serial number could be given to it.
    FailedToOpen,
    /// A write or a trailer failed for a reason that is not benign, or the
    /// caller reported something that the controller was not waiting for.
    BrokenMux,
}

} // verus!
