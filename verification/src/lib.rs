//! Verified core of the shrimp local coding agent.
pub mod text;
pub mod json;
pub mod toolcall;
pub mod index;
pub mod retrieval;
pub mod context;
pub mod provider;
pub mod paths;
pub mod config;
pub mod session;
pub mod tools;
pub mod agent;
pub mod stream;
pub mod tui;
pub mod wrap;
pub mod style;
pub mod markdown;
pub mod highlight;
pub mod cards;
pub mod chat;
pub mod keys;
pub mod syntax;
pub mod laws;
