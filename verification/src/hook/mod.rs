//! Hooks that wrap the sending of a request: retries and redirects.
pub mod redirect;
pub mod retry;
