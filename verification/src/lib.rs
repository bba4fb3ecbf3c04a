//! Protocol logic for a terminal image-generation client.
//!
//! The library covers the request/response contract with the remote
//! generation service: request construction and serialization, the
//! model-fallback submission protocol, safety-filter interpretation, and
//! image-data extraction. Network transport, filesystem output and
//! terminal rendering are left to the binary around it.

pub mod cli;
pub mod codec;
pub mod error;
pub mod gemini;
pub mod image_handler;
pub mod json;
pub mod text;

pub use error::ImagoError;
