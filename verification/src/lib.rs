//! A gateway library for chat-style LLM requests.
//!
//! The crate holds the provider-independent conversation model, the
//! translation layers for the OpenAI-compatible, Azure, Anthropic and Gemini
//! wire formats, the tool-catalog filtering rules, the credential planning
//! and OAuth2 token-cache logic, and the tool-calling orchestration loop.
//! Network transport, MCP connections and configuration parsing live outside
//! the library and drive it through the functions exported here.

pub mod auth;
pub mod error;
pub mod json;
pub mod mcp;
pub mod models;
pub mod orchestrator;

pub use error::Error;
