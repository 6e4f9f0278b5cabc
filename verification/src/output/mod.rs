//! Outputs that routed input goes to.
pub mod chuniio_proxy;
