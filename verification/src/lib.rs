//! Decision logic of a backup tool that copies a set of content volumes to
//! several destinations in parallel while the consumers of those volumes are
//! paused.
//!
//! Everything here is pure: commands are planned, probe output is parsed and
//! the course of a run is decided from the events that the caller reports.
//! Running processes, touching the file system and talking to the network is
//! left to the caller.

pub mod backup;
pub mod backup_result;
pub mod destination;
pub mod monitor;
pub mod notification;
pub mod orchestrator;
pub mod orchestrator_laws;
pub mod text;
pub mod utils;
