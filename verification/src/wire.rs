//! Byte strings as the packet codec takes them.

use bytes::Bytes;
use vstd::prelude::*;

verus! {

/// `bytes::Bytes`: an immutable, cheaply cloned byte string. Nothing is
/// assumed of its layout; the library reads it only through `bytes_seq`.
#[verifier::external_type_specification]
#[verifier::external_body]
pub struct ExBytes(Bytes);

/// The bytes that a `Bytes` value holds, in order.
pub uninterp spec fn bytes_seq(b: Bytes) -> Seq<u8>;

/// `Bytes::clone`: the clone shares the buffer and holds the same bytes.
pub assume_specification[ <Bytes as Clone>::clone ](b: &Bytes) -> (copy: Bytes)
    ensures
        bytes_seq(copy) == bytes_seq(*b),
;

/// `Bytes::from(String)`: takes over the string's buffer, so the result
/// holds the UTF-8 encoding of the text, byte for byte.
#[verifier::external_body]
pub(crate) fn bytes_of_text(text: String) -> (b: Bytes)
    ensures
        bytes_seq(b) == vstd::utf8::encode_utf8(text@),
{
    Bytes::from(text)
}

} // verus!
