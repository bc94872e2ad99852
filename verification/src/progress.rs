//! The events that report how far an update run has come.

use vstd::prelude::*;

use crate::catalog::PatchInfo;
use crate::error::UpdaterError;

verus! {

/// One progress event. Events are handed to the caller as they arise and are
/// never stored. A download reports the bytes received so far and the bytes
/// expected in all, from which the caller has the fraction done.
#[derive(Debug)]
pub enum UpdateProgress {
    CheckingForUpdates,
    UpdatesAvailable(Vec<PatchInfo>),
    Downloading { current: usize, total: usize, version: String, received: u64, expected: u64 },
    Extracting { current: usize, total: usize, version: String },
    Complete,
    Error(UpdaterError),
}

} // verus!
