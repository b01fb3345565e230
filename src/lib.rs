//! Client-side construction and dispatch logic for submitting transactions to a
//! consensus node and publishing intents to a gossip service.
pub mod dispatch;
pub mod error;
pub mod hexdata;
pub mod intent;
pub mod session;
pub mod tx;
pub mod wire;
