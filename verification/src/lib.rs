//! Verified core of a visual-novel library manager: resumable downloads,
//! database and save-data backups, game launching and the text rules they
//! share. File, network and process access is left to the host application,
//! which feeds observations in and performs the actions that come out.

pub mod backup;
pub mod download;
pub mod host;
pub mod install;
pub mod launch;
pub mod migration;
pub mod proxy;
pub mod text;
