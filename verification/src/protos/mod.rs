//! Protocols that outputs speak.
pub mod chuniio;
