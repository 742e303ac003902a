//! Rkyv body serializer/deserializer.
use crate::mime::xml_name;
use vstd::prelude::*;

verus! {

/// Rkyv body serializer/deserializer.
#[derive(Debug, Clone, Copy, PartialEq, Eq)]
pub struct RkyvBody;

impl RkyvBody {
    /// The value this format puts in both the `Content-Type` and the
    /// `Accept` header of a request.
    pub fn content_type(&self) -> (r: String)
        ensures
            r@ == "xml"@,
    {
        xml_name()
    }
}

} // verus!
