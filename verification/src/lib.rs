//! Keeps a local mod folder in step with a revision of a remote repository.
//!
//! A run has four steps. The remote side is listed, either as a tree of
//! content hashes or as the entries of one snapshot archive. The local side
//! is listed from the files found under the mod root. The two listings are
//! held against each other, which gives a plan: files to create, files to
//! overwrite, files to remove. The plan is carried out one file at a time.
//!
//! The library decides; it does not touch the network or the disk. Its
//! callers send the requests it describes, walk the folder, make each
//! change, and report back. What every run is owed, whoever drives it, is
//! proved in [`guarantees`]: a finished run leaves the local side equal to
//! the remote one but for noise files, and a second run finds nothing to do.
//!
//! - [`hashing`]: the content fingerprint of the remote host
//! - [`paths`], [`text`]: the rules on relative paths
//! - [`inventory`]: what one side holds
//! - [`github`], [`archive`]: the two ways of listing the remote side
//! - [`local`]: listing the local side
//! - [`reconcile`]: from two inventories to a plan
//! - [`apply`]: carrying a plan out
//! - [`patcher`]: a whole run, planned
//! - [`discovery`], [`config`]: which folder to keep in step
//! - [`error`]: the ways in which a run can fail

pub mod apply;
pub mod archive;
pub mod config;
pub mod discovery;
pub mod error;
pub mod github;
pub mod guarantees;
pub mod hashing;
pub mod inventory;
pub mod local;
pub mod patcher;
pub mod paths;
pub mod reconcile;
pub mod seq_facts;
pub mod text;
