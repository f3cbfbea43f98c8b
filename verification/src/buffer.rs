//! The byte buffer that stream items are handed over in: `bytes::Bytes`,
//! as actix-web names it. Verus takes the contracts in this file on trust.

use actix_web::web::Bytes;
use vstd::prelude::*;

verus! {

/// Makes `bytes::Bytes` known to Verus as a type whose inside it does not
/// see.
#[verifier::external_type_specification]
#[verifier::external_body]
pub struct ExBytes(actix_web::web::Bytes);

/// The bytes that a buffer holds, first one first.
pub uninterp spec fn bytes_held(buffer: Bytes) -> Seq<u8>;

/// `Bytes::copy_from_slice` makes a buffer that holds a copy of `data`.
pub assume_specification[ actix_web::web::Bytes::copy_from_slice ](data: &[u8]) -> (buffer:
    actix_web::web::Bytes)
    ensures
        bytes_held(buffer) == data@,
;

/// A buffer that holds the UTF-8 bytes of `text`, through `Bytes::from` on
/// a `String`, which takes over the string's own bytes.
#[verifier::external_body]
pub(crate) fn text_buffer(text: String) -> (buffer: Bytes)
    ensures
        bytes_held(buffer) == vstd::utf8::encode_utf8(text@),
{
    Bytes::from(text)
}

} // verus!
