//! Download tasks: from an install request to a checked archive on disk.

pub mod hash;
pub mod task;
pub mod types;
pub mod verify;
