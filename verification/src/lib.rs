//! Backflow: an input router and message broker.
pub mod backend;
pub mod config;
pub mod device_filter;
pub mod environment;
pub mod error;
pub mod feedback;
pub mod input;
pub mod json;
pub mod output;
pub mod protos;
pub mod table;
pub mod text;
