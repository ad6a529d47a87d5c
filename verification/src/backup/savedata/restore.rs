//! Restoring a save-data backup.
//!
//! The archive is unpacked beside the target, checked, and renamed into
//! place. The old save data is set aside before, put back if that fails, and
//! removed only when the new one is in place.

pub mod common;
pub mod rooted;
pub mod session;
