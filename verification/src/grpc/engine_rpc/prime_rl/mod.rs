//! Weight administration for reinforcement learning.

pub mod admin;
pub mod calls;
pub mod history;
pub mod pb;
pub mod updates;
