//! The Gemini API: response model, request construction and response handling.
pub mod types;
pub mod client;
