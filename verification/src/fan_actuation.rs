//! Fan actuation: the privileged daemon's protocol, its heartbeat lease, and
//! the client side that the application uses.
pub mod bootstrap;
pub mod client;
pub mod console_user;
pub mod daemon;
pub mod installer;
pub mod lease;
pub mod migration;
pub mod protocol;
pub mod smc_adapter;
pub mod socket;
