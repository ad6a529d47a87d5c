//! Starting and stopping games.

pub mod common;
pub mod linux;
pub mod proton;
pub mod scope;
