//! The OpenEngine service.

pub mod pb;
pub mod request;
pub mod response;
pub mod service;
