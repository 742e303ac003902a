//! Server-Sent Events: parsing events, recognising event streams, and the
//! media type an event stream request carries.
pub mod event;
pub mod response;
