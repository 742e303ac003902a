//! Verified building blocks for the deboa HTTP client: retry and redirect
//! decisions, Server-Sent Events parsing, content negotiation for compressed
//! bodies, and the media types of the body formats.
pub mod catcher;
pub mod delay;
pub mod dns;
pub mod errors;
pub mod headers;
pub mod hook;
pub mod http;
pub mod io;
pub mod mime;
pub mod serde;
pub mod text;
