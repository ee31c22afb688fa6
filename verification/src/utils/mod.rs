//! Small building blocks shared by the rest of the crate.

pub mod atomic_instant;
pub mod clock;
pub mod copies;
pub mod entries;
pub mod header_val;
pub mod reloadable;
pub mod text;
