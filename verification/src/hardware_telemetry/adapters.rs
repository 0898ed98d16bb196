//! Normalization of raw hardware readings into the snapshot's groups.
pub mod iokit;
pub mod smc;
