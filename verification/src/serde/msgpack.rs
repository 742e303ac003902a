//! MessagePack body serializer/deserializer.
use vstd::prelude::*;
use crate::mime::application_msgpack;

verus! {

/// MessagePack body serializer/deserializer.
#[derive(Debug, Clone, Copy, PartialEq, Eq)]
pub struct MsgPackBody;

impl MsgPackBody {
    /// The media type of bodies in this format.
    pub fn mime_type(&self) -> (r: &'static str)
        ensures
            r@ == "application/msgpack"@,
    {
        application_msgpack()
    }
}

} // verus!
