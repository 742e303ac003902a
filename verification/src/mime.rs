//! The media types the library sends and recognises.
use vstd::prelude::*;

verus! {

/// `text/event-stream`, the media type of an event stream.
///
/// Reads `mime_typed::TextEventStream::MIME_STR`. Trusted: it holds the
/// text `text/event-stream`.
#[verifier::external_body]
pub fn text_event_stream() -> (r: &'static str)
    ensures
        r@ == "text/event-stream"@,
{
    <mime_typed::TextEventStream as mime_typed::MimeStrExt>::MIME_STR
}

/// `application/json`.
///
/// Reads `mime_typed::ApplicationJson::MIME_STR`. Trusted: it holds the
/// text `application/json`.
#[verifier::external_body]
pub fn application_json() -> (r: &'static str)
    ensures
        r@ == "application/json"@,
{
    <mime_typed::ApplicationJson as mime_typed::MimeStrExt>::MIME_STR
}

/// `application/msgpack`.
///
/// Reads `mime_typed::ApplicationMsgpack::MIME_STR`. Trusted: it holds the
/// text `application/msgpack`.
#[verifier::external_body]
pub fn application_msgpack() -> (r: &'static str)
    ensures
        r@ == "application/msgpack"@,
{
    <mime_typed::ApplicationMsgpack as mime_typed::MimeStrExt>::MIME_STR
}

/// `text/xml`.
///
/// Reads `mime_typed::TextXml::MIME_STR`. Trusted: it holds the text
/// `text/xml`.
#[verifier::external_body]
pub fn text_xml() -> (r: &'static str)
    ensures
        r@ == "text/xml"@,
{
    <mime_typed::TextXml as mime_typed::MimeStrExt>::MIME_STR
}

/// `xml`, the name that `mime_typed::Xml` displays as.
///
/// Calls `ToString::to_string` on `mime_typed::Xml`. Trusted: its text is
/// `xml`.
#[verifier::external_body]
pub fn xml_name() -> (r: String)
    ensures
        r@ == "xml"@,
{
    mime_typed::Xml.to_string()
}

} // verus!
