//! The assistant service that applications share.
pub mod config;
pub mod events;
pub mod protocol;
pub mod requests;
pub mod server;
pub mod state;
pub mod wire;
pub mod worker;
