//! Contracts assumed about functions of other crates, and of the parts of
//! std that vstd gives no specification.  Nothing in this module is checked
//! by the verifier; every contract here states only what the function's own
//! documentation promises.

use vstd::prelude::*;

verus! {

/// Relies on std's `String::push`: appends the given char to the end of the
/// string.
pub assume_specification[ String::push ](s: &mut String, c: char)
    ensures
        final(s)@ == old(s)@.push(c),
;

/// Two lowercase hex digits for one byte.
pub open spec fn hex_pair(b: u8) -> Seq<char> {
    seq![crate::strutil::hex_digit((b / 16) as nat), crate::strutil::hex_digit((b % 16) as nat)]
}

/// The lowercase hex rendering of a byte sequence, two digits per byte.
pub open spec fn hex_lower_spec(bytes: Seq<u8>) -> Seq<char>
    decreases bytes.len(),
{
    if bytes.len() == 0 {
        Seq::<char>::empty()
    } else {
        hex_pair(bytes[0]) + hex_lower_spec(bytes.drop_first())
    }
}

/// Relies on hex::encode: encodes the bytes as a hex string using lowercase
/// characters, each byte always encoded as exactly two hex digits.
#[verifier::external_body]
pub(crate) fn hex_encode(bytes: &[u8]) -> (r: String)
    ensures
        r@ == hex_lower_spec(bytes@),
{
    hex::encode(bytes)
}

} // verus!
