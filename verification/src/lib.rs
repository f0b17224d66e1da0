//! Verified core of the siren voice engine: the text, byte and protocol
//! logic that its speech adapters, command line and MCP server are built
//! from. Audio samples are generic here; the adapters that hold them as
//! floating-point values, and all I/O, live outside this crate.

pub mod agent;
pub mod application;
pub mod asr;
pub mod audio;
pub mod codec;
pub mod error;
pub mod gemini;
pub mod json;
pub mod live;
pub mod mcp;
pub mod ports;
pub mod sse;
pub mod text;
pub mod transcript;
pub mod tts;
pub mod vad;
pub mod wav;

pub use error::DomainError;
pub use transcript::Transcript;
