//! The FIX 4.2/4.4 tag=value protocol engine: framing, parsing and encoding.
pub mod wire;
pub mod text;
pub mod msg_type;
pub mod error;
pub mod message;
pub mod parser;
pub mod laws;
