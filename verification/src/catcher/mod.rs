//! Catchers that act on requests and responses.
pub mod encoding;
