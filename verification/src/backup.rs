//! Database, cover and save-data backups.

pub mod automatic;
pub mod common;
pub mod covers;
pub mod database;
pub mod savedata;
pub mod staged;
