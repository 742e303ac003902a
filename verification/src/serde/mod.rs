//! The body formats the client can send and read, with their media types.
pub mod cbor;
pub mod flex;
pub mod json;
pub mod msgpack;
pub mod rkyv;
pub mod xml;
pub mod yaml;
