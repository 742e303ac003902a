//! Flexbuffers body serializer/deserializer.
use vstd::prelude::*;


verus! {

/// Flexbuffers body serializer/deserializer.
#[derive(Debug, Clone, Copy, PartialEq, Eq)]
pub struct FlexBody;

impl FlexBody {
    /// The media type of bodies in this format.
    pub fn mime_type(&self) -> (r: &'static str)
        ensures
            r@ == "application/x-flexbuffers"@,
    {
        "application/x-flexbuffers"
    }
}

} // verus!
