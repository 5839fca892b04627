//! Relay logic of a bridge between two chat platforms: the fan-out hub,
//! the gateway protocol state machines and the message relay pipeline,
//! each stated over mathematical models and proved against them.

pub mod config;
pub mod discord_to_guilded;
pub mod error_boxable;
pub mod frame;
pub mod gateway;
pub mod guilded_to_discord;
pub mod identity;
pub mod json;
pub mod multi_recv;
pub mod relay;
pub mod str_map;
pub mod text;
