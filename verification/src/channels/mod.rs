//! The decisions of event channels: the buffers that collect events until
//! they are handed on as a batch, the delivery of the parts of a split event,
//! and when an event is sent on or stops the chain.
//!
//! A channel here holds its state and decides what is due; running a handler,
//! a merger or the next channel is left to the caller.
pub mod buffer;
pub mod collector;
pub mod examples;
pub mod filter;
pub mod join;
pub mod splitter;
pub mod transform;
