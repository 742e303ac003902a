//! HTTP extras: Server-Sent Events.
pub mod sse;
