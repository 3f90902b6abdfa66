//! Incremental synchronisation of an installation directory with a remote,
//! archive-packaged release: manifest reading, diffing, batched range
//! downloads, entry verification, and the driving state machine.

pub mod archive;
pub mod compare;
pub mod download;
pub mod error;
pub mod locations;
pub mod manifest;
pub mod panels;
pub mod paths;
pub mod progress;
pub mod remote;
pub mod unpack;
pub mod update;
