//! Verified core of a Gemini File Search client and OpenAI-compatible proxy.
pub mod text;
pub mod json;
pub mod gemini;
pub mod server;
pub mod util;
pub mod paths;
pub mod number;
pub mod cli;
pub mod pdf;
pub mod files;
pub mod logging;
pub mod output;
pub mod query;
pub mod mcp;
