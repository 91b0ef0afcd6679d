//! The keyed hash that signs tokens: HMAC over BLAKE3.

use hmac::Mac;
use vstd::prelude::*;

verus! {

#[verifier::external_type_specification]
#[verifier::external_body]
pub struct ExInvalidLength(hmac::digest::InvalidLength);

/// The tag of `message` under `key`: what `hmac::SimpleHmac<blake3::Hasher>`
/// computes.
pub uninterp spec fn mac_tag(key: Seq<u8>, message: Seq<u8>) -> Seq<u8>;

/// The length of every tag, in bytes: the output size of BLAKE3.
pub const TAG_LEN: usize = 32;

/// Keys `hmac::SimpleHmac<blake3::Hasher>` with `Mac::new_from_slice`, feeds
/// it `message` with `Mac::update` and takes the tag with `Mac::finalize`.
///
/// Trusted: the tag is a function of key and message alone and is
/// `TAG_LEN` bytes long. `SimpleHmac` pads or hashes a key of any length, so
/// the keying never fails.
#[verifier::external_body]
pub(crate) fn sign(key: &[u8], message: &[u8]) -> (r: Result<Vec<u8>, hmac::digest::InvalidLength>)
    ensures
        r is Ok,
        r matches Ok(tag) ==> tag@ == mac_tag(key@, message@),
        r matches Ok(tag) ==> tag@.len() == TAG_LEN,
{
    let mut mac = hmac::SimpleHmac::<blake3::Hasher>::new_from_slice(key)?;
    mac.update(message);
    Ok(mac.finalize().into_bytes().to_vec())
}

/// Keys `hmac::SimpleHmac<blake3::Hasher>` as [`sign`] does and calls
/// `Mac::verify_slice`, which compares in constant time.
///
/// Trusted: the answer is `true` exactly where `tag` is the tag of `message`
/// under `key`; a tag of another length is refused.
#[verifier::external_body]
pub(crate) fn check(key: &[u8], message: &[u8], tag: &[u8]) -> (r: Result<
    bool,
    hmac::digest::InvalidLength,
>)
    ensures
        r is Ok,
        r matches Ok(same) ==> same == (tag@ == mac_tag(key@, message@)),
{
    let mut mac = hmac::SimpleHmac::<blake3::Hasher>::new_from_slice(key)?;
    mac.update(message);
    Ok(mac.verify_slice(tag).is_ok())
}

} // verus!
