//! Verified core of the Mission Control tray app: error mapping, text and
//! JSON handling, the write guardrail, API request shaping, sync decisions
//! and the cache's row rules.
pub mod text;
pub mod error;
pub mod json;
pub mod write_guard;
pub mod api;
pub mod sync;
pub mod store;
