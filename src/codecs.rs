//! Byte and text codecs used by the authentication code, each a thin,
//! trusted call into std or an outside crate with the contract it documents.

use vstd::prelude::*;
use vstd::utf8::{valid_utf8, encode_utf8};
use base64::Engine;
use hmac::Mac;

verus! {

/// base64's decoding error, carried through opaquely.
#[verifier::external_type_specification]
#[verifier::external_body]
pub struct ExDecodeError(base64::DecodeError);

/// The text that the standard, padded base64 engine produces for `b`.
pub uninterp spec fn b64_encoded(b: Seq<u8>) -> Seq<char>;

/// The HMAC-SHA256 tag of `msg` under `key`.
pub uninterp spec fn hmac_sha256_of(key: Seq<u8>, msg: Seq<u8>) -> Seq<u8>;

/// A symbol of the standard base64 alphabet, or the padding sign.
pub open spec fn is_b64_char(c: char) -> bool {
    ('A' <= c && c <= 'Z') || ('a' <= c && c <= 'z') || ('0' <= c && c <= '9') || c == '+' || c == '/'
        || c == '='
}

/// Length of the padded base64 text of `n` bytes.
pub open spec fn b64_len(n: nat) -> nat {
    4 * ((n + 2) / 3)
}

/// How many `=` end the padded base64 text of `n` bytes.
pub open spec fn b64_pad(n: nat) -> nat {
    ((3 - n % 3) % 3) as nat
}

/// `s` has the shape of the padded base64 text of `n` bytes: its length,
/// symbols of the alphabet, and `=` in exactly the padding positions at the end.
pub open spec fn b64_shaped(s: Seq<char>, n: nat) -> bool {
    &&& s.len() == b64_len(n)
    &&& forall|i: int|
        0 <= i < s.len() ==> is_b64_char(#[trigger] s[i]) && (s[i] == '=' <==> i >= s.len()
            - b64_pad(n))
}

/// `s` is the standard base64 text of `b`.
pub open spec fn decodes_to(s: Seq<char>, b: Seq<u8>) -> bool {
    s == b64_encoded(b)
}

/// Relies on base64's `STANDARD.encode`: padded text over the standard
/// alphabet, four symbols for each three bytes begun, `=` only as padding at
/// the end; a function of the bytes alone.
#[verifier::external_body]
pub(crate) fn b64_encode(b: &[u8]) -> (r: String)
    ensures
        r@ == b64_encoded(b@),
        b64_shaped(r@, b@.len()),
{
    base64::engine::general_purpose::STANDARD.encode(b)
}

/// Relies on base64's `STANDARD.decode`: with canonical padding required and
/// trailing bits refused, it accepts exactly the texts that `encode` yields
/// and gives back the bytes that were encoded; so an accepted text has the
/// shape of the encoding of what it gives.
#[verifier::external_body]
pub(crate) fn b64_decode(s: &str) -> (r: Result<Vec<u8>, base64::DecodeError>)
    ensures
        r is Ok ==> decodes_to(s@, r->Ok_0@),
        r is Ok ==> b64_shaped(s@, r->Ok_0@.len()),
        forall|b: Seq<u8>| #[trigger] decodes_to(s@, b) ==> r is Ok && r->Ok_0@ == b,
{
    base64::engine::general_purpose::STANDARD.decode(s)
}

/// Relies on `String::from_utf8`: it succeeds exactly on valid UTF-8 and then
/// holds the characters that the bytes encode.
#[verifier::external_body]
pub(crate) fn utf8_decode(b: Vec<u8>) -> (r: Option<String>)
    ensures
        r is Some <==> valid_utf8(b@),
        r is Some ==> encode_utf8(r->Some_0@) == b@,
{
    String::from_utf8(b).ok()
}

/// Relies on hmac's `Hmac<Sha256>` (with sha2's `Sha256`): the tag depends on
/// the key and the message alone; a key of any length is accepted.
#[verifier::external_body]
pub(crate) fn hmac_sha256(key: &[u8], msg: &[u8]) -> (r: Vec<u8>)
    ensures
        r@ == hmac_sha256_of(key@, msg@),
{
    let mut mac = <hmac::Hmac<sha2::Sha256> as Mac>::new_from_slice(key).expect(
        "HMAC takes a key of any length",
    );
    mac.update(msg);
    mac.finalize().into_bytes().to_vec()
}

} // verus!
