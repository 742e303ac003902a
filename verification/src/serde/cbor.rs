//! CBOR body serializer/deserializer.
use vstd::prelude::*;


verus! {

/// CBOR body serializer/deserializer.
#[derive(Debug, Clone, Copy, PartialEq, Eq)]
pub struct CborBody;

impl CborBody {
    /// The media type of bodies in this format.
    pub fn mime_type(&self) -> (r: &'static str)
        ensures
            r@ == "application/cbor"@,
    {
        "application/cbor"
    }
}

} // verus!
