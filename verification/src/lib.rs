//! Verified core of a subagent spawner and of its provider proxy.

pub mod agent;
pub mod agent_laws;
pub mod base_laws;
pub mod codec;
pub mod config;
pub mod json;
pub mod proxy;
pub mod text;
