//! Session tokens: who the bearer is and until when, signed by the server.
//!
//! A token is the base64 of the claims' bytes, a dot, and the base64 of the
//! tag that the server's secret gives to the first segment as it is written.
//! Nothing is kept on the server: a token is checked against the secret and
//! the clock alone.

use super::base64::{base64_bytes, base64_decoded, base64_text, decode, encode, is_base64_symbol};
use super::claims::{claims_bytes, claims_of, deadline, Claims};
use super::claims::{lemma_claims_bytes_len, lemma_claims_round_trip};
use super::clock::unix_now;
use super::mac::{check, mac_tag, sign};
use vstd::prelude::*;
use vstd::slice::slice_subrange;
use vstd::std_specs::convert::FromSpecImpl;
use vstd::string::*;
use vstd::utf8::{encode_utf8, is_ascii_chars, is_ascii_chars_encode_utf8};

verus! {

/// Why a token was not honoured.
#[derive(Clone, Copy, Debug, PartialEq, Eq, Structural)]
pub enum Error {
    /// The token is not two base64 segments with one dot between them.
    Malformed,
    /// The signature is not the server's for this payload, or the signed
    /// payload is not the bytes of any claims.
    VerificationFailed,
    /// The signature holds and the deadline has come.
    Expired,
    /// The signing backend refused the secret.
    Internal,
}

impl From<hmac::digest::InvalidLength> for Error {
    fn from(refused: hmac::digest::InvalidLength) -> (r: Self) {
        Error::Internal
    }
}

impl FromSpecImpl<hmac::digest::InvalidLength> for Error {
    open spec fn obeys_from_spec() -> bool {
        true
    }

    open spec fn from_spec(refused: hmac::digest::InvalidLength) -> Self {
        Error::Internal
    }
}

/// The byte `.`, which parts a token's segments.
pub const DOT: u8 = 46;

/// The secret that signs tokens and the time they live.
pub struct TokenCodec {
    secret: Vec<u8>,
    ttl_seconds: u16,
}

/// `token` has a dot at `i` and nowhere else.
pub open spec fn only_dot_at(token: Seq<u8>, i: int) -> bool {
    &&& 0 <= i < token.len()
    &&& token[i] == DOT
    &&& forall|j: int| 0 <= j < token.len() && j != i ==> token[j] != DOT
}

/// The two segments of `token`: what stands before and behind its dot, where
/// it has exactly one.
pub open spec fn segments(token: Seq<u8>) -> Option<(Seq<u8>, Seq<u8>)> {
    if exists|i: int| only_dot_at(token, i) {
        let i = choose|i: int| only_dot_at(token, i);
        Some((token.subrange(0, i), token.subrange(i + 1, token.len() as int)))
    } else {
        None
    }
}

/// What a signed payload says at `now`: its user, if it is the bytes of
/// claims whose deadline has not come.
pub open spec fn claims_outcome(payload: Seq<u8>, now: int) -> Result<i64, Error> {
    match claims_of(payload) {
        None => Err(Error::VerificationFailed),
        Some(claims) => if now >= claims.exp {
            Err(Error::Expired)
        } else {
            Ok(claims.user_id)
        },
    }
}

/// What checking `token` at `now` under `secret` comes to.
///
/// The segments are parted and decoded first, then the signature is held
/// against the first segment as written, and only a payload whose signature
/// holds is read as claims.
pub open spec fn verify_outcome(secret: Seq<u8>, token: Seq<u8>, now: int) -> Result<i64, Error> {
    match segments(token) {
        None => Err(Error::Malformed),
        Some((payload_text, tag_text)) => match (
            base64_decoded(payload_text),
            base64_decoded(tag_text),
        ) {
            (Some(payload), Some(tag)) => if tag == mac_tag(secret, payload_text) {
                claims_outcome(payload, now)
            } else {
                Err(Error::VerificationFailed)
            },
            _ => Err(Error::Malformed),
        },
    }
}

/// The token that carries `payload` under `secret`.
pub open spec fn signed_text(secret: Seq<u8>, payload: Seq<u8>) -> Seq<char> {
    base64_text(payload) + seq!['.'] + base64_text(mac_tag(secret, base64_bytes(payload)))
}

/// The token issued under `secret` to `user_id` at `now`, to live `ttl`
/// seconds.
pub open spec fn token_text(secret: Seq<u8>, user_id: i64, now: i64, ttl: u16) -> Seq<char> {
    signed_text(
        secret,
        claims_bytes(Claims { exp: deadline(now as int, ttl as int) as i64, user_id }),
    )
}

/// `token` names `user_id` at every second before `exp`, and is expired from
/// `exp` on.
pub open spec fn honoured_until(secret: Seq<u8>, token: Seq<u8>, user_id: i64, exp: int) -> bool {
    forall|at: int| #[trigger]
        verify_outcome(secret, token, at) == if at >= exp {
            Err::<i64, Error>(Error::Expired)
        } else {
            Ok::<i64, Error>(user_id)
        }
}

/// A dot that is the only one has one place.
proof fn lemma_only_dot_unique(token: Seq<u8>, i: int, j: int)
    requires
        only_dot_at(token, i),
        only_dot_at(token, j),
    ensures
        i == j,
{
}

/// Two dotless segments with a dot between them are the segments of what
/// they make.
proof fn lemma_segments_of_joined(left: Seq<u8>, right: Seq<u8>)
    requires
        !left.contains(DOT),
        !right.contains(DOT),
    ensures
        segments(left + seq![DOT] + right) == Some((left, right)),
{
    let token = left + seq![DOT] + right;
    let at = left.len() as int;
    assert forall|j: int| 0 <= j < token.len() && j != at implies token[j] != DOT by {
        if j < at {
            assert(token[j] == left[j]);
        } else {
            assert(token[j] == right[j - at - 1]);
        }
    }
    assert(only_dot_at(token, at));
    let chosen = choose|i: int| only_dot_at(token, i);
    lemma_only_dot_unique(token, at, chosen);
    assert(token.subrange(0, at) =~= left);
    assert(token.subrange(at + 1, token.len() as int) =~= right);
}

/// A token with a dot inside one of its segments has more than one dot.
proof fn lemma_dotted_segment(left: Seq<u8>, right: Seq<u8>)
    requires
        left.contains(DOT) || right.contains(DOT),
    ensures
        segments(left + seq![DOT] + right) is None,
{
    let token = left + seq![DOT] + right;
    let at = left.len() as int;
    assert(token[at] == DOT);
    let other = if left.contains(DOT) {
        let k = choose|k: int| 0 <= k < left.len() && left[k] == DOT;
        assert(token[k] == left[k]);
        k
    } else {
        let k = choose|k: int| 0 <= k < right.len() && right[k] == DOT;
        assert(token[at + 1 + k] == right[k]);
        at + 1 + k
    };
    assert(token[other] == DOT && other != at);
    assert forall|i: int| !only_dot_at(token, i) by {
        if only_dot_at(token, i) {
            if i == at {
                assert(token[other] != DOT);
            } else {
                assert(token[at] != DOT);
            }
        }
    }
}

/// Base64 text is plain ASCII without a dot, and so are its bytes.
proof fn lemma_symbols_as_bytes(text: Seq<char>)
    requires
        forall|i: int| 0 <= i < text.len() ==> is_base64_symbol(#[trigger] text[i]),
    ensures
        is_ascii_chars(text),
        encode_utf8(text).len() == text.len(),
        forall|i: int| 0 <= i < text.len() ==> #[trigger] encode_utf8(text)[i] == text[i] as u8,
        !encode_utf8(text).contains(DOT),
{
    assert forall|i: int| 0 <= i < text.len() implies '\0' <= #[trigger] text[i] <= '\u{7f}' by {
        assert(is_base64_symbol(text[i]));
    }
    is_ascii_chars_encode_utf8(text);
    let bytes = encode_utf8(text);
    assert forall|i: int| 0 <= i < bytes.len() implies bytes[i] != DOT by {
        assert(is_base64_symbol(text[i]));
        assert(bytes[i] == text[i] as u8);
    }
}

/// The bytes of two base64 texts joined by a dot are their bytes joined by
/// the dot's byte.
proof fn lemma_joined_bytes(left: Seq<char>, right: Seq<char>)
    requires
        forall|i: int| 0 <= i < left.len() ==> is_base64_symbol(#[trigger] left[i]),
        forall|i: int| 0 <= i < right.len() ==> is_base64_symbol(#[trigger] right[i]),
    ensures
        encode_utf8(left + seq!['.'] + right) == encode_utf8(left) + seq![DOT] + encode_utf8(right),
{
    let whole = left + seq!['.'] + right;
    lemma_symbols_as_bytes(left);
    lemma_symbols_as_bytes(right);
    assert forall|i: int| 0 <= i < whole.len() implies '\0' <= #[trigger] whole[i] <= '\u{7f}' by {
        if i < left.len() {
            assert(whole[i] == left[i]);
        } else if i > left.len() {
            assert(whole[i] == right[i - left.len() - 1]);
        }
    }
    is_ascii_chars_encode_utf8(whole);
    let joined = encode_utf8(left) + seq![DOT] + encode_utf8(right);
    assert(encode_utf8(whole).len() == joined.len());
    assert forall|i: int| 0 <= i < joined.len() implies encode_utf8(whole)[i] == joined[i] by {
        assert(encode_utf8(whole)[i] == whole[i] as u8);
        if i < left.len() {
            assert(whole[i] == left[i]);
        } else if i > left.len() {
            assert(whole[i] == right[i - left.len() - 1]);
        }
    }
    assert(encode_utf8(whole) =~= joined);
}

impl TokenCodec {
    /// The secret that signs.
    pub closed spec fn secret(&self) -> Seq<u8> {
        self.secret@
    }

    /// The seconds a token lives.
    pub closed spec fn ttl(&self) -> u16 {
        self.ttl_seconds
    }

    /// A codec that signs with `secret` and issues tokens that live
    /// `ttl_seconds`.
    pub fn new(secret: Vec<u8>, ttl_seconds: u16) -> (r: Self)
        ensures
            r.secret() == secret@,
            r.ttl() == ttl_seconds,
    {
        TokenCodec { secret, ttl_seconds }
    }

    /// The seconds a token lives.
    pub fn ttl_seconds(&self) -> (r: u16)
        ensures
            r == self.ttl(),
    {
        self.ttl_seconds
    }
}

/// Where the one dot of `bytes` stands.
fn find_only_dot(bytes: &[u8]) -> (r: Option<usize>)
    ensures
        match r {
            Some(at) => only_dot_at(bytes@, at as int),
            None => forall|i: int| !only_dot_at(bytes@, i),
        },
{
    let len = bytes.len();
    let mut found: Option<usize> = None;
    let mut i: usize = 0;
    while i < len
        invariant
            i <= len,
            len == bytes@.len(),
            match found {
                Some(at) => at < i && bytes@[at as int] == DOT && forall|j: int|
                    0 <= j < i && j != at ==> bytes@[j] != DOT,
                None => forall|j: int| 0 <= j < i ==> bytes@[j] != DOT,
            },
        decreases len - i,
    {
        if bytes[i] == DOT {
            match found {
                Some(at) => {
                    proof {
                        assert forall|k: int| !only_dot_at(bytes@, k) by {
                            if only_dot_at(bytes@, k) {
                                if k == at {
                                    assert(bytes@[i as int] != DOT);
                                } else {
                                    assert(bytes@[at as int] != DOT);
                                }
                            }
                        }
                    }
                    return None;
                },
                None => {
                    found = Some(i);
                },
            }
        }
        i = i + 1;
    }
    found
}

/// Issues the token that names `user_id` from `now` until `codec`'s time to
/// live has passed.
///
/// The token verifies under the same secret at every second before its
/// deadline and is expired from the deadline on.
pub fn create_token_at(codec: &TokenCodec, user_id: i64, now: i64) -> (r: Result<String, Error>)
    ensures
        r matches Ok(token) && token@ == token_text(codec.secret(), user_id, now, codec.ttl()),
        r matches Ok(token) ==> honoured_until(
            codec.secret(),
            encode_utf8(token@),
            user_id,
            deadline(now as int, codec.ttl() as int),
        ),
{
    let claims = Claims::issue(user_id, now, codec.ttl_seconds);
    let payload = claims.to_bytes();
    proof {
        lemma_claims_bytes_len(claims);
        lemma_claims_round_trip(claims);
    }
    let payload_text = encode(payload.as_slice());
    let tag = match sign(codec.secret.as_slice(), payload_text.as_str().as_bytes()) {
        Ok(tag) => tag,
        Err(e) => {
            return Err(Error::from(e));
        },
    };
    let tag_text = encode(tag.as_slice());
    let ghost left = payload_text@;
    let ghost right = tag_text@;
    let mut token = payload_text;
    token.append(".");
    token.append(tag_text.as_str());
    proof {
        reveal_strlit(".");
        assert(token@ =~= left + seq!['.'] + right);
        lemma_joined_bytes(left, right);
        lemma_symbols_as_bytes(left);
        lemma_symbols_as_bytes(right);
        lemma_segments_of_joined(encode_utf8(left), encode_utf8(right));
        assert forall|at: int| #[trigger]
            verify_outcome(codec.secret(), encode_utf8(token@), at) == if at >= claims.exp {
                Err::<i64, Error>(Error::Expired)
            } else {
                Ok::<i64, Error>(user_id)
            } by {}
    }
    Ok(token)
}

/// Checks the bytes of a token as of `now`: whose it is, or why it is not
/// honoured.
pub fn verify_token_bytes_at(codec: &TokenCodec, token: &[u8], now: i64) -> (r: Result<i64, Error>)
    ensures
        r == verify_outcome(codec.secret(), token@, now as int),
{
    let len = token.len();
    let at = match find_only_dot(token) {
        Some(at) => at,
        None => {
            return Err(Error::Malformed);
        },
    };
    proof {
        lemma_only_dot_unique(token@, at as int, choose|i: int| only_dot_at(token@, i));
    }
    let payload_text = slice_subrange(token, 0, at);
    let tag_text = slice_subrange(token, at + 1, len);
    let payload = match decode(payload_text) {
        Ok(payload) => payload,
        Err(_) => {
            return Err(Error::Malformed);
        },
    };
    let tag = match decode(tag_text) {
        Ok(tag) => tag,
        Err(_) => {
            return Err(Error::Malformed);
        },
    };
    match check(codec.secret.as_slice(), payload_text, tag.as_slice()) {
        Ok(true) => {},
        Ok(false) => {
            return Err(Error::VerificationFailed);
        },
        Err(e) => {
            return Err(Error::from(e));
        },
    }
    match Claims::from_bytes(payload.as_slice()) {
        None => Err(Error::VerificationFailed),
        Some(claims) => if claims.expired_at(now) {
            Err(Error::Expired)
        } else {
            Ok(claims.user_id)
        },
    }
}

/// Checks `token` as of `now`: whose it is, or why it is not honoured.
pub fn verify_token_at(codec: &TokenCodec, token: &str, now: i64) -> (r: Result<i64, Error>)
    ensures
        r == verify_outcome(codec.secret(), encode_utf8(token@), now as int),
{
    verify_token_bytes_at(codec, token.as_bytes(), now)
}

/// `token` is what `codec` issues to `user_id` at `now`.
pub open spec fn issued_at(codec: &TokenCodec, user_id: i64, now: i64, token: Seq<char>) -> bool {
    &&& token == token_text(codec.secret(), user_id, now, codec.ttl())
    &&& honoured_until(
        codec.secret(),
        encode_utf8(token),
        user_id,
        deadline(now as int, codec.ttl() as int),
    )
}

/// Issues a token that names `user_id` from the present second on.
pub fn create_token(codec: &TokenCodec, user_id: i64) -> (r: Result<String, Error>)
    ensures
        r matches Ok(token) && exists|now: i64| #[trigger] issued_at(codec, user_id, now, token@),
{
    let now = unix_now();
    let r = create_token_at(codec, user_id, now);
    proof {
        assert(r matches Ok(token) && issued_at(codec, user_id, now, token@));
    }
    r
}

/// `outcome` is what checking `token` comes to at `now`.
pub open spec fn checked_at(
    codec: &TokenCodec,
    token: Seq<char>,
    now: i64,
    outcome: Result<i64, Error>,
) -> bool {
    outcome == verify_outcome(codec.secret(), encode_utf8(token), now as int)
}

/// Checks `token` as of the present second.
pub fn verify_token(codec: &TokenCodec, token: &str) -> (r: Result<i64, Error>)
    ensures
        exists|now: i64| #[trigger] checked_at(codec, token@, now, r),
{
    let now = unix_now();
    let r = verify_token_at(codec, token, now);
    proof {
        assert(checked_at(codec, token@, now, r));
    }
    r
}

/// A token without a dot, or with more than one, is malformed whatever else
/// it holds.
pub proof fn law_one_dot(secret: Seq<u8>, token: Seq<u8>, now: int)
    ensures
        !token.contains(DOT) ==> verify_outcome(secret, token, now) == Err::<i64, Error>(
            Error::Malformed,
        ),
        (exists|i: int, j: int|
            0 <= i < j < token.len() && token[i] == DOT && token[j] == DOT) ==> verify_outcome(
            secret,
            token,
            now,
        ) == Err::<i64, Error>(Error::Malformed),
{
    if !token.contains(DOT) {
        assert forall|i: int| !only_dot_at(token, i) by {
            if only_dot_at(token, i) {
                assert(token.contains(DOT));
            }
        }
    }
    if exists|i: int, j: int| 0 <= i < j < token.len() && token[i] == DOT && token[j] == DOT {
        let (i, j) = choose|i: int, j: int|
            0 <= i < j < token.len() && token[i] == DOT && token[j] == DOT;
        assert forall|k: int| !only_dot_at(token, k) by {
            if only_dot_at(token, k) {
                if k == i {
                    assert(token[j] != DOT);
                } else {
                    assert(token[i] != DOT);
                }
            }
        }
    }
}

/// The segments of a token that verifies hold no dot.
proof fn lemma_verified_segments(secret: Seq<u8>, left: Seq<u8>, right: Seq<u8>, now: int)
    requires
        verify_outcome(secret, left + seq![DOT] + right, now) is Ok,
    ensures
        !left.contains(DOT),
        !right.contains(DOT),
        segments(left + seq![DOT] + right) == Some((left, right)),
{
    if left.contains(DOT) || right.contains(DOT) {
        lemma_dotted_segment(left, right);
    }
    lemma_segments_of_joined(left, right);
}

/// What is left of a token once one of its segments was replaced: malformed
/// where the new segment holds a dot or is no base64, and else refused for
/// its signature.
pub open spec fn tampered_outcome(segment: Seq<u8>) -> Result<i64, Error> {
    if segment.contains(DOT) || base64_decoded(segment) is None {
        Err(Error::Malformed)
    } else {
        Err(Error::VerificationFailed)
    }
}

/// Any change to the signature segment of a token that verifies leaves a
/// token that does not: it fails verification, or is malformed where the
/// change broke the segment's base64.
pub proof fn law_tampered_signature(
    secret: Seq<u8>,
    payload_text: Seq<u8>,
    tag_text: Seq<u8>,
    forged: Seq<u8>,
    now: int,
)
    requires
        verify_outcome(secret, payload_text + seq![DOT] + tag_text, now) is Ok,
        forged != tag_text,
    ensures
        verify_outcome(secret, payload_text + seq![DOT] + forged, now) == tampered_outcome(forged),
{
    lemma_verified_segments(secret, payload_text, tag_text, now);
    if forged.contains(DOT) {
        lemma_dotted_segment(payload_text, forged);
    } else {
        lemma_segments_of_joined(payload_text, forged);
    }
}

/// Any change to the payload segment of a token that verifies, with the
/// signature left as it was, leaves a token that does not, unless the secret
/// gives the new segment the very tag of the old one.
pub proof fn law_tampered_payload(
    secret: Seq<u8>,
    payload_text: Seq<u8>,
    tag_text: Seq<u8>,
    forged: Seq<u8>,
    now: int,
)
    requires
        verify_outcome(secret, payload_text + seq![DOT] + tag_text, now) is Ok,
        forged != payload_text,
        mac_tag(secret, forged) != mac_tag(secret, payload_text),
    ensures
        verify_outcome(secret, forged + seq![DOT] + tag_text, now) == tampered_outcome(forged),
{
    lemma_verified_segments(secret, payload_text, tag_text, now);
    if forged.contains(DOT) {
        lemma_dotted_segment(forged, tag_text);
    } else {
        lemma_segments_of_joined(forged, tag_text);
    }
}

} // verus!
