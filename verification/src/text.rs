//! Text primitives. Strings are specified through their character sequences.

pub mod chars;
pub mod concat;
pub mod number;
pub mod order;
pub mod scan;
