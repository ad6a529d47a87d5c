//! Resumable segmented HTTP downloads.
//!
//! A target is split into pieces of equal size. A control file next to the
//! target records how many bytes of each piece are on disk; it never claims
//! more than was written, and a target without one is complete.
//!
//! Instants and durations are whole nanoseconds; instants count from an
//! arbitrary origin fixed by the host.

pub mod backoff;
pub mod commit;
pub mod control;
pub mod error;
pub mod fsx;
pub mod http;
pub mod limiter;
pub mod piece;
pub mod probe;
pub mod progress;
pub mod segmented;
pub mod session;
pub mod stream;
pub mod types;
