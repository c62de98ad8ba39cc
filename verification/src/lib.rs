//! Strata: read-only portfolio analysis with an agent-facing tool layer.
pub mod decimal;
pub mod trading212;
pub mod portfolio;
pub mod agent;
pub mod http;
pub mod json;
pub mod tools;
pub mod chat;
