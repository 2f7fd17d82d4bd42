//! Conversational-agent gateway core: a unified chat model, per-vendor
//! protocol adapters, a bounded tool-calling agent loop, streaming token
//! relay state, per-connection cancellation tracking, and an in-memory
//! message store with a flat text export/import format.

pub mod adapters;
pub mod agent;
pub mod api;
pub mod auth;
pub mod config;
pub mod decode;
pub mod export;
pub mod gateway;
pub mod llm;
pub mod jsonio;
pub mod models;
pub mod store;
pub mod stream;
pub mod text;
pub mod tools;

pub use api::{default_limit, default_offset, PaginationQuery};
