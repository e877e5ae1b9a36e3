//! Manifest synchronisation and bulk acquisition planning for a locally
//! mirrored playlist.
//!
//! The library holds the logic: the snapshot model and its line format, the
//! delta between two snapshots, the partition of locators over workers, the
//! classification of the acquisition tool's output, the commit protocol that
//! promotes a fresh snapshot, and the device bookkeeping used when pushing a
//! collection to a phone. Processes, files and the console are left to the
//! caller.

pub mod adb;
pub mod bytes;
pub mod classify;
pub mod codec;
pub mod commit;
pub mod delta;
pub mod dispatch;
pub mod local;
pub mod partition;
pub mod snapshot;
mod text;
pub mod tool;
