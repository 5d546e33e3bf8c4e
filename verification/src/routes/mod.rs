//! HTTP routes.

pub mod collective_rpc;
