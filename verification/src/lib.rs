//! Pending state of a node that follows a flashblocks stream, and the subscriptions that report
//! on it.
//!
//! - [`pending_state_provider`] layers the diff of the pending blocks on top of historical state.
//! - [`pending_block`] decides how pending state and the pending block are loaded.
//! - [`subscription`] and [`messages`] hold what subscribers ask for and what they are sent.
//! - [`laws`] states what holds of the pending state as a whole, and of every call on its own.

pub mod account;
pub mod bundle;
pub mod hashed;
pub mod hashing;
pub mod keyed;
pub mod laws;
pub mod messages;
pub mod pending_block;
pub mod pending_state;
pub mod pending_state_provider;
pub mod primitives;
pub mod subscription;
pub mod wire;
