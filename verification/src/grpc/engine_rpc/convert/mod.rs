//! Conversion between the messages of the engine service and requests and events of the engine.

pub mod request;
pub mod response;
