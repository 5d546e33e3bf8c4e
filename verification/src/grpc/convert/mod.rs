//! Conversion between wire messages and engine requests and events.

pub mod features;
pub mod fields;
pub mod identity;
pub mod msgpack;
pub mod multimodal;
pub mod request;
pub mod response;
pub mod sampling;
pub mod tensors;
pub mod xargs;
