//! XML body serializer/deserializer.
use vstd::prelude::*;
use crate::mime::text_xml;

verus! {

/// XML body serializer/deserializer.
#[derive(Debug, Clone, Copy, PartialEq, Eq)]
pub struct XmlBody;

impl XmlBody {
    /// The media type of bodies in this format.
    pub fn mime_type(&self) -> (r: &'static str)
        ensures
            r@ == "text/xml"@,
    {
        text_xml()
    }
}

} // verus!
