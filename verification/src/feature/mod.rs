//! The feature workspace that a migration targets.
pub mod index;
pub mod loader;
