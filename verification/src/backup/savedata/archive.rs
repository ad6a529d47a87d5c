//! Save-data archives: what may stand in one, and how one is made.

pub mod create;
pub mod inspect;
