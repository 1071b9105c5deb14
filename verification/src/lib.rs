//! Collision-safe note naming: extracting a title from drafted markdown,
//! confirming or replacing it interactively, slugifying it, and picking a
//! destination filename that does not clash with the files already present.

pub mod extract;
pub mod naming;
pub mod session;
pub mod titles;
