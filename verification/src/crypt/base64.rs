//! Base64 text, written and read by the `base64` crate's standard engine.

use base64::Engine;
use vstd::prelude::*;
use vstd::utf8::encode_utf8;

verus! {

#[verifier::external_type_specification]
#[verifier::external_body]
pub struct ExDecodeError(base64::DecodeError);

/// The text that the standard engine writes for `data`: the alphabet of
/// RFC 4648, with `=` padding.
pub uninterp spec fn base64_text(data: Seq<u8>) -> Seq<char>;

/// The characters that base64 text is made of.
pub open spec fn is_base64_symbol(c: char) -> bool {
    ||| 'A' <= c <= 'Z'
    ||| 'a' <= c <= 'z'
    ||| '0' <= c <= '9'
    ||| c == '+'
    ||| c == '/'
    ||| c == '='
}

/// Base64 text as it travels: the bytes of [`base64_text`].
pub open spec fn base64_bytes(data: Seq<u8>) -> Seq<u8> {
    encode_utf8(base64_text(data))
}

/// The data that `text` stands for, where `text` is the base64 of some data.
pub open spec fn base64_decoded(text: Seq<u8>) -> Option<Seq<u8>> {
    if exists|data: Seq<u8>| base64_bytes(data) == text {
        Some(choose|data: Seq<u8>| base64_bytes(data) == text)
    } else {
        None
    }
}

/// `data` is short enough for its base64 length to fit in `usize`.
pub open spec fn encodable(data: Seq<u8>) -> bool {
    data.len() / 3 * 4 + 4 <= usize::MAX
}

/// Calls `Engine::encode` on `base64::engine::general_purpose::STANDARD`.
///
/// Trusted: the result is the engine's text for `data`, it holds only
/// symbols of the alphabet and padding, and it stands for no other data than
/// `data`. The engine panics where the encoded length overflows `usize`,
/// which `encodable` rules out.
#[verifier::external_body]
pub(crate) fn encode(data: &[u8]) -> (text: String)
    requires
        encodable(data@),
    ensures
        text@ == base64_text(data@),
        forall|i: int| 0 <= i < text@.len() ==> is_base64_symbol(#[trigger] text@[i]),
        base64_decoded(encode_utf8(text@)) == Some(data@),
{
    base64::engine::general_purpose::STANDARD.encode(data)
}

/// Calls `Engine::decode` on `base64::engine::general_purpose::STANDARD`.
///
/// Trusted: the engine asks for canonical padding and refuses stray
/// trailing bits, so it accepts `text` exactly where `text` is the base64 of
/// some data, and then returns that data.
#[verifier::external_body]
pub(crate) fn decode(text: &[u8]) -> (r: Result<Vec<u8>, base64::DecodeError>)
    ensures
        match r {
            Ok(data) => base64_decoded(text@) == Some(data@),
            Err(_) => base64_decoded(text@) is None,
        },
{
    base64::engine::general_purpose::STANDARD.decode(text)
}

} // verus!
