//! YAML body serializer/deserializer.
use vstd::prelude::*;


verus! {

/// YAML body serializer/deserializer.
#[derive(Debug, Clone, Copy, PartialEq, Eq)]
pub struct YamlBody;

impl YamlBody {
    /// The media type of bodies in this format.
    pub fn mime_type(&self) -> (r: &'static str)
        ensures
            r@ == "application/yaml"@,
    {
        "application/yaml"
    }
}

} // verus!
