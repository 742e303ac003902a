//! Reading header values as text.
use crate::text::{ascii_chars, decode_lossy, is_ascii_bytes};
use vstd::prelude::*;

verus! {

/// A byte a header value can hand out as text: visible ASCII or a tab.
pub open spec fn visible_ascii(b: u8) -> bool {
    (32 <= b && b < 127) || b == 9
}

/// Every byte of `value` is visible ASCII or a tab.
pub open spec fn all_visible_ascii(value: Seq<u8>) -> bool {
    forall|i: int| 0 <= i < value.len() ==> visible_ascii(#[trigger] value[i])
}

/// The text of a header value, or `None` where the value holds a byte that
/// is neither visible ASCII nor a tab; this is what `HeaderValue::to_str`
/// of the `http` crate accepts.
pub fn header_text(value: &[u8]) -> (r: Option<String>)
    ensures
        r is Some <==> all_visible_ascii(value@),
        r matches Some(s) ==> s@ == ascii_chars(value@),
{
    let mut i: usize = 0;
    while i < value.len()
        invariant
            i <= value@.len(),
            forall|j: int| 0 <= j < i ==> visible_ascii(#[trigger] value@[j]),
        decreases value.len() - i,
    {
        let b = value[i];
        if !((32 <= b && b < 127) || b == 9) {
            return None;
        }
        i = i + 1;
    }
    assert(is_ascii_bytes(value@));
    Some(decode_lossy(value))
}

} // verus!
