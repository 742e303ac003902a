//! JSON body serializer/deserializer.
use vstd::prelude::*;
use crate::mime::application_json;

verus! {

/// JSON body serializer/deserializer.
#[derive(Debug, Clone, Copy, PartialEq, Eq)]
pub struct JsonBody;

impl JsonBody {
    /// The media type of bodies in this format.
    pub fn mime_type(&self) -> (r: &'static str)
        ensures
            r@ == "application/json"@,
    {
        application_json()
    }
}

} // verus!
