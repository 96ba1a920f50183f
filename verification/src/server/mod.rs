//! The OpenAI-compatible proxy: citations, chat prompts, completions and streaming.
pub mod citations;
pub mod sse;
pub mod chat;
pub mod metadata;
pub mod completion;
pub mod stream;
pub mod headers;
