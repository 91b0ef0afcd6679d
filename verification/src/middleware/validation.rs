//! The guard of the protected routes.
//!
//! A request passes where its `Authorization` header reads `Bearer` and a
//! token that verifies. Every other request is turned away with `401` and
//! nothing else, before its handler is reached.

use crate::crypt::clock::unix_now;
use crate::crypt::token::{verify_outcome, verify_token_bytes_at, TokenCodec};
use crate::utils::extensions::UserId;
use vstd::prelude::*;
use vstd::slice::slice_subrange;
use vstd::utf8::encode_utf8;

verus! {

/// The status of a request that is turned away.
pub const UNAUTHORIZED: u16 = 401;

/// The byte of a space.
pub const SPACE: u8 = 32;

/// The byte of a tabulator.
pub const TAB: u8 = 9;

/// The scheme's name in lower case: `bearer`.
pub open spec fn scheme() -> Seq<u8> {
    seq![98u8, 101, 97, 114, 101, 114]
}

/// `b`, in lower case where it is a capital letter.
pub open spec fn lower(b: u8) -> u8 {
    if 65 <= b <= 90 {
        (b + 32) as u8
    } else {
        b
    }
}

/// `header` begins with the scheme's name, in any case, and a space.
pub open spec fn has_bearer_scheme(header: Seq<u8>) -> bool {
    &&& header.len() > 6
    &&& header[6] == SPACE
    &&& forall|i: int| 0 <= i < 6 ==> lower(#[trigger] header[i]) == scheme()[i]
}

/// `s` without the spaces and tabulators it begins with.
pub open spec fn skip_blanks(s: Seq<u8>) -> Seq<u8>
    decreases s.len(),
{
    if s.len() > 0 && (s[0] == SPACE || s[0] == TAB) {
        skip_blanks(s.drop_first())
    } else {
        s
    }
}

/// The token that `header` bears: what follows the scheme and the blanks
/// behind it.
pub open spec fn bearer_token(header: Seq<u8>) -> Option<Seq<u8>> {
    if has_bearer_scheme(header) {
        Some(skip_blanks(header.subrange(7, header.len() as int)))
    } else {
        None
    }
}

/// What the guard makes of a request at `now`: the user it runs as, or the
/// status it is turned away with.
pub open spec fn guard_outcome(
    secret: Seq<u8>,
    authorization: Option<Seq<u8>>,
    now: int,
) -> Result<UserId, u16> {
    match authorization {
        None => Err(UNAUTHORIZED),
        Some(header) => match bearer_token(header) {
            None => Err(UNAUTHORIZED),
            Some(token) => match verify_outcome(secret, token, now) {
                Ok(user_id) => Ok(UserId(user_id)),
                Err(_) => Err(UNAUTHORIZED),
            },
        },
    }
}

/// The bytes of a header that is there.
pub open spec fn header_bytes(authorization: Option<&str>) -> Option<Seq<u8>> {
    match authorization {
        None => None,
        Some(header) => Some(encode_utf8(header@)),
    }
}

/// `b`, in lower case where it is a capital letter.
fn to_lower(b: u8) -> (r: u8)
    ensures
        r == lower(b),
{
    if 65 <= b && b <= 90 {
        b + 32
    } else {
        b
    }
}

/// Takes the token out of the value of an `Authorization` header.
pub fn bearer_token_of(header: &[u8]) -> (r: Option<&[u8]>)
    ensures
        match r {
            Some(token) => bearer_token(header@) == Some(token@),
            None => bearer_token(header@) is None,
        },
{
    let len = header.len();
    if len <= 6 || header[6] != SPACE {
        return None;
    }
    let name = vec![98u8, 101, 97, 114, 101, 114];
    assert(name@ =~= scheme());
    let mut i: usize = 0;
    while i < 6
        invariant
            i <= 6,
            len == header@.len(),
            len > 6,
            name@ == scheme(),
            forall|j: int| 0 <= j < i ==> lower(#[trigger] header@[j]) == scheme()[j],
        decreases 6 - i,
    {
        if to_lower(header[i]) != name[i] {
            return None;
        }
        i = i + 1;
    }
    let mut start: usize = 7;
    let ghost rest = header@.subrange(7, len as int);
    assert(header@.subrange(7, len as int) =~= rest);
    while start < len && (header[start] == SPACE || header[start] == TAB)
        invariant
            7 <= start <= len,
            len == header@.len(),
            skip_blanks(rest) == skip_blanks(header@.subrange(start as int, len as int)),
        decreases len - start,
    {
        proof {
            let here = header@.subrange(start as int, len as int);
            assert(here[0] == header@[start as int]);
            assert(here.drop_first() =~= header@.subrange(start + 1, len as int));
        }
        start = start + 1;
    }
    proof {
        let here = header@.subrange(start as int, len as int);
        if start < len {
            assert(here[0] == header@[start as int]);
        }
        assert(skip_blanks(here) == here);
    }
    Some(slice_subrange(header, start, len))
}

/// Decides at `now` whether a request with this `Authorization` header may
/// pass, and as whom.
pub fn authorize_at(codec: &TokenCodec, authorization: Option<&str>, now: i64) -> (r: Result<
    UserId,
    u16,
>)
    ensures
        r == guard_outcome(codec.secret(), header_bytes(authorization), now as int),
{
    let header = match authorization {
        Some(header) => header,
        None => {
            return Err(UNAUTHORIZED);
        },
    };
    let token = match bearer_token_of(header.as_bytes()) {
        Some(token) => token,
        None => {
            return Err(UNAUTHORIZED);
        },
    };
    match verify_token_bytes_at(codec, token, now) {
        Ok(user_id) => Ok(UserId(user_id)),
        Err(_) => Err(UNAUTHORIZED),
    }
}

/// `outcome` is what the guard and the handler behind it come to at `now`:
/// the handler's answer to the user the request runs as, or the status the
/// request is turned away with.
pub open spec fn guarded_at<R, F: FnOnce(UserId) -> R>(
    codec: &TokenCodec,
    authorization: Option<&str>,
    now: i64,
    next: F,
    outcome: Result<R, u16>,
) -> bool {
    match guard_outcome(codec.secret(), header_bytes(authorization), now as int) {
        Ok(user) => outcome matches Ok(response) && next.ensures((user,), response),
        Err(status) => outcome matches Err(given) && given == status,
    }
}

/// Guards `next` as of `now`: runs it, once, for the user the request is
/// authenticated as, and turns every other request away.
///
/// `next` need only be callable for a user whom the guard admits: so it is
/// not called for another, nor for none.
pub fn validate_at<R, F: FnOnce(UserId) -> R>(
    codec: &TokenCodec,
    authorization: Option<&str>,
    now: i64,
    next: F,
) -> (r: Result<R, u16>)
    requires
        guard_outcome(codec.secret(), header_bytes(authorization), now as int) matches Ok(user)
            ==> next.requires((user,)),
    ensures
        guarded_at(codec, authorization, now, next, r),
{
    match authorize_at(codec, authorization, now) {
        Ok(user) => Ok(next(user)),
        Err(status) => Err(status),
    }
}

/// Guards `next` as of the present second.
pub fn validate<R, F: FnOnce(UserId) -> R>(
    codec: &TokenCodec,
    authorization: Option<&str>,
    next: F,
) -> (r: Result<R, u16>)
    requires
        forall|now: i64|
            #[trigger] guard_outcome(
                codec.secret(),
                header_bytes(authorization),
                now as int,
            ) matches Ok(user) ==> next.requires((user,)),
    ensures
        exists|now: i64| #[trigger] guarded_at(codec, authorization, now, next, r),
        authorization is None ==> (r matches Err(status) && status == UNAUTHORIZED),
{
    let now = unix_now();
    let r = validate_at(codec, authorization, now, next);
    proof {
        assert(guarded_at(codec, authorization, now, next, r));
    }
    r
}

} // verus!
