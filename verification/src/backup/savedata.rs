//! Save-data backups: making, keeping, moving and restoring them.

pub mod archive;
pub mod create;
pub mod delete;
pub mod failure;
pub mod fs_safety;
pub mod migration;
pub mod paths;
pub mod restore;
pub mod root;
pub mod tree;
