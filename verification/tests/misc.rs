use deboa_extras::dns::resolved_addresses;
use deboa_extras::errors::ClientError;
use deboa_extras::headers::header_text;
use deboa_extras::serde::{
    cbor::CborBody, flex::FlexBody, json::JsonBody, msgpack::MsgPackBody, rkyv::RkyvBody,
    xml::XmlBody, yaml::YamlBody,
};
use deboa_extras::text::decimal_string;

#[test]
fn body_media_types() {
    assert_eq!(JsonBody.mime_type(), "application/json");
    assert_eq!(MsgPackBody.mime_type(), "application/msgpack");
    assert_eq!(XmlBody.mime_type(), "text/xml");
    assert_eq!(YamlBody.mime_type(), "application/yaml");
    assert_eq!(FlexBody.mime_type(), "application/x-flexbuffers");
    assert_eq!(CborBody.mime_type(), "application/cbor");
    assert_eq!(RkyvBody.content_type(), "xml");
}

#[test]
fn addresses_are_permuted() {
    let found = vec![1u32, 2, 3, 4, 5, 6, 7, 8];
    let mut out = resolved_addresses("example.com".to_string(), Some(found.clone())).unwrap();
    out.sort();
    assert_eq!(out, found);
    assert_eq!(
        resolved_addresses::<u32>("nowhere".to_string(), None),
        Err(ClientError::Resolve {
            host: "nowhere".to_string(),
            message: "Failed to resolve host".to_string()
        })
    );
}

#[test]
fn header_values_as_text() {
    assert_eq!(header_text(b"gzip, br"), Some("gzip, br".to_string()));
    assert_eq!(header_text(b"a\tb"), Some("a\tb".to_string()));
    assert_eq!(header_text(b"caf\xc3\xa9"), None);
    assert_eq!(header_text(b"a\x7fb"), None);
    assert_eq!(header_text(b""), Some(String::new()));
}

#[test]
fn decimal_numerals() {
    assert_eq!(decimal_string(0), "0");
    assert_eq!(decimal_string(7), "7");
    assert_eq!(decimal_string(10), "10");
    assert_eq!(decimal_string(u64::MAX), "18446744073709551615");
}
