//! Incremental patch update engine.
//!
//! The engine finds the patches that a server advertises, keeps those newer
//! than the installed version, and has them downloaded and installed in
//! ascending order. It performs no input or output itself: the caller makes
//! the requests and touches the disk, and the engine decides.
//!
//! Every function carries a contract. Verus proves them all but three: the
//! contracts of the three functions in [`version`] that call the `semver`
//! crate (to parse, to compare and to print a version) are believed, not
//! proved, and everything that is proved about versions rests on them.
//!
//! * [`version`]: semantic versions and their total order (parsing,
//!   comparing and printing are done by the `semver` crate).
//! * [`text`]: the grammar of a catalog line.
//! * [`catalog`]: reading a catalog, ordering it, choosing what applies.
//! * [`download`]: file names, status codes and download progress.
//! * [`install`]: the extraction plan of an archive.
//! * [`tree`]: a model of the directory tree and the laws of installation.
//! * [`updater`]: the update run as a state machine.
//! * [`progress`], [`error`]: the events and the errors of a run.

pub mod catalog;
pub mod download;
pub mod error;
pub mod install;
pub mod progress;
pub mod text;
pub mod tree;
pub mod updater;
pub mod version;
