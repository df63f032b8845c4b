//! Webhook event capture, storage, replay and forwarding.
pub mod clock;
pub mod json;
pub mod models;
pub mod store;
pub mod error;
pub mod config;
pub mod headers;
pub mod shared;
pub mod channels;
