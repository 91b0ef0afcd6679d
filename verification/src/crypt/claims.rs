//! What a token says, and the bytes that say it.
//!
//! Claims travel as one line of JSON with the keys in a fixed order and no
//! white space: `{"exp":1700003600,"user_id":42}`. Only that form is read
//! back.

use super::decimal::{decimal, decimal_at, lemma_decimal_at_unique, lemma_decimal_len};
use super::decimal::{parse_decimal, push_decimal};
use vstd::prelude::*;

verus! {

/// A user, and the second from which the token that names them is void.
#[derive(Clone, Copy, Debug, PartialEq, Eq, Structural)]
pub struct Claims {
    /// The deadline, in seconds since the Unix epoch.
    pub exp: i64,
    /// The user the token was issued to.
    pub user_id: i64,
}

/// The byte `}`.
pub const CLOSE: u8 = 125;

/// The bytes `{"exp":`.
pub open spec fn exp_key() -> Seq<u8> {
    seq![123u8, 34, 101, 120, 112, 34, 58]
}

/// The bytes `,"user_id":`.
pub open spec fn user_id_key() -> Seq<u8> {
    seq![44u8, 34, 117, 115, 101, 114, 95, 105, 100, 34, 58]
}

/// The bytes of `claims`.
pub open spec fn claims_bytes(claims: Claims) -> Seq<u8> {
    exp_key() + decimal(claims.exp as int) + user_id_key() + decimal(claims.user_id as int)
        + seq![CLOSE]
}

/// The claims that `bytes` are the bytes of, if there are any.
pub open spec fn claims_of(bytes: Seq<u8>) -> Option<Claims> {
    if exists|claims: Claims| claims_bytes(claims) == bytes {
        Some(choose|claims: Claims| claims_bytes(claims) == bytes)
    } else {
        None
    }
}

/// The deadline of a token issued at `now` to live `ttl` seconds: their sum,
/// held at the last second an `i64` can name.
pub open spec fn deadline(now: int, ttl: int) -> int {
    if now + ttl > i64::MAX {
        i64::MAX as int
    } else {
        now + ttl
    }
}

/// Where each part of the bytes of `claims` lies.
proof fn lemma_layout(claims: Claims)
    ensures
        ({
            let bytes = claims_bytes(claims);
            let comma = 7 + decimal(claims.exp as int).len() as int;
            let close = comma + 11 + decimal(claims.user_id as int).len() as int;
            &&& bytes.len() == close + 1
            &&& bytes.subrange(0, 7) == exp_key()
            &&& decimal_at(bytes, 7, comma, claims.exp as int)
            &&& bytes.subrange(comma, comma + 11) == user_id_key()
            &&& decimal_at(bytes, comma + 11, close, claims.user_id as int)
            &&& bytes[close] == CLOSE
        }),
{
    let bytes = claims_bytes(claims);
    let comma = 7 + decimal(claims.exp as int).len() as int;
    let close = comma + 11 + decimal(claims.user_id as int).len() as int;
    lemma_decimal_len(claims.exp);
    lemma_decimal_len(claims.user_id);
    assert(bytes.subrange(0, 7) =~= exp_key());
    assert(bytes.subrange(7, comma) =~= decimal(claims.exp as int));
    assert(bytes.subrange(comma, comma + 11) =~= user_id_key());
    assert(bytes.subrange(comma + 11, close) =~= decimal(claims.user_id as int));
    assert(bytes[comma] == user_id_key()[0]);
}

/// No two claims have the same bytes.
pub proof fn lemma_claims_bytes_injective(a: Claims, b: Claims)
    requires
        claims_bytes(a) == claims_bytes(b),
    ensures
        a == b,
{
    let bytes = claims_bytes(a);
    lemma_layout(a);
    lemma_layout(b);
    let comma_a = 7 + decimal(a.exp as int).len() as int;
    let comma_b = 7 + decimal(b.exp as int).len() as int;
    lemma_decimal_at_unique(bytes, 7, comma_a, a.exp as int, comma_b, b.exp as int);
    let close_a = comma_a + 11 + decimal(a.user_id as int).len() as int;
    let close_b = comma_b + 11 + decimal(b.user_id as int).len() as int;
    lemma_decimal_at_unique(
        bytes,
        comma_a + 11,
        close_a,
        a.user_id as int,
        close_b,
        b.user_id as int,
    );
}

/// Reading the bytes of claims gives the claims back.
pub proof fn lemma_claims_round_trip(claims: Claims)
    ensures
        claims_of(claims_bytes(claims)) == Some(claims),
{
    let found = choose|other: Claims| claims_bytes(other) == claims_bytes(claims);
    lemma_claims_bytes_injective(found, claims);
}

/// The bytes of claims are at most 59 bytes long.
pub proof fn lemma_claims_bytes_len(claims: Claims)
    ensures
        claims_bytes(claims).len() <= 59,
{
    lemma_decimal_len(claims.exp);
    lemma_decimal_len(claims.user_id);
}

/// Whether `pattern` stands in `bytes` at `at`.
fn holds_at(bytes: &[u8], at: usize, pattern: &[u8]) -> (r: bool)
    requires
        at <= bytes@.len(),
    ensures
        r == (at + pattern@.len() <= bytes@.len() && bytes@.subrange(
            at as int,
            at + pattern@.len(),
        ) == pattern@),
{
    let len = bytes.len();
    if len - at < pattern.len() {
        return false;
    }
    let mut i: usize = 0;
    while i < pattern.len()
        invariant
            i <= pattern@.len(),
            len == bytes@.len(),
            at + pattern@.len() <= bytes@.len(),
            bytes@.subrange(at as int, at + i) == pattern@.subrange(0, i as int),
        decreases pattern@.len() - i,
    {
        if bytes[at + i] != pattern[i] {
            proof {
                let window = bytes@.subrange(at as int, at + pattern@.len());
                assert(window[i as int] == bytes@[at + i]);
            }
            return false;
        }
        proof {
            assert(bytes@.subrange(at as int, at + i + 1) =~= bytes@.subrange(
                at as int,
                at + i,
            ).push(bytes@[at + i]));
            assert(pattern@.subrange(0, i + 1) =~= pattern@.subrange(0, i as int).push(
                pattern@[i as int],
            ));
        }
        i = i + 1;
    }
    proof {
        assert(pattern@.subrange(0, pattern@.len() as int) =~= pattern@);
    }
    true
}

/// The bytes `{"exp":`.
fn exp_key_bytes() -> (r: Vec<u8>)
    ensures
        r@ == exp_key(),
{
    let r = vec![123u8, 34, 101, 120, 112, 34, 58];
    assert(r@ =~= exp_key());
    r
}

/// The bytes `,"user_id":`.
fn user_id_key_bytes() -> (r: Vec<u8>)
    ensures
        r@ == user_id_key(),
{
    let r = vec![44u8, 34, 117, 115, 101, 114, 95, 105, 100, 34, 58];
    assert(r@ =~= user_id_key());
    r
}

impl Claims {
    /// Claims for `user_id` that run out at `exp`.
    pub fn new(user_id: i64, exp: i64) -> (r: Self)
        ensures
            r == (Claims { exp, user_id }),
    {
        Claims { exp, user_id }
    }

    /// Claims for `user_id` issued at `now` to live `ttl` seconds.
    pub fn issue(user_id: i64, now: i64, ttl: u16) -> (r: Self)
        ensures
            r.user_id == user_id,
            r.exp == deadline(now as int, ttl as int),
    {
        let exp = match now.checked_add(ttl as i64) {
            Some(exp) => exp,
            None => i64::MAX,
        };
        Claims { exp, user_id }
    }

    /// Whether the deadline has come at `now`. The deadline's own second
    /// counts as come.
    pub fn expired_at(&self, now: i64) -> (r: bool)
        ensures
            r == (now >= self.exp),
    {
        now >= self.exp
    }

    /// The bytes of these claims.
    pub fn to_bytes(&self) -> (r: Vec<u8>)
        ensures
            r@ == claims_bytes(*self),
    {
        let mut out = exp_key_bytes();
        push_decimal(&mut out, self.exp);
        let key = user_id_key_bytes();
        out.extend_from_slice(key.as_slice());
        push_decimal(&mut out, self.user_id);
        out.push(CLOSE);
        out
    }

    /// Reads claims from their bytes. Bytes that no claims have give none.
    pub fn from_bytes(bytes: &[u8]) -> (r: Option<Self>)
        ensures
            r == claims_of(bytes@),
    {
        let len = bytes.len();
        let exp_key = exp_key_bytes();
        if !holds_at(bytes, 0, exp_key.as_slice()) {
            proof {
                assert forall|c: Claims| claims_bytes(c) != bytes@ by {
                    lemma_layout(c);
                }
            }
            return None;
        }
        let (exp, comma) = match parse_decimal(bytes, 7) {
            Some(found) => found,
            None => {
                proof {
                    assert forall|c: Claims| claims_bytes(c) != bytes@ by {
                        lemma_layout(c);
                    }
                }
                return None;
            },
        };
        let user_id_key = user_id_key_bytes();
        if !holds_at(bytes, comma, user_id_key.as_slice()) {
            proof {
                assert forall|c: Claims| claims_bytes(c) != bytes@ by {
                    lemma_layout(c);
                    if claims_bytes(c) == bytes@ {
                        lemma_decimal_at_unique(
                            bytes@,
                            7,
                            comma as int,
                            exp as int,
                            7 + decimal(c.exp as int).len() as int,
                            c.exp as int,
                        );
                    }
                }
            }
            return None;
        }
        let (user_id, close) = match parse_decimal(bytes, comma + 11) {
            Some(found) => found,
            None => {
                proof {
                    assert forall|c: Claims| claims_bytes(c) != bytes@ by {
                        lemma_layout(c);
                        if claims_bytes(c) == bytes@ {
                            lemma_decimal_at_unique(
                                bytes@,
                                7,
                                comma as int,
                                exp as int,
                                7 + decimal(c.exp as int).len() as int,
                                c.exp as int,
                            );
                        }
                    }
                }
                return None;
            },
        };
        if close >= len || close + 1 != len || bytes[close] != CLOSE {
            proof {
                assert forall|c: Claims| claims_bytes(c) != bytes@ by {
                    lemma_layout(c);
                    if claims_bytes(c) == bytes@ {
                        let c_comma = 7 + decimal(c.exp as int).len() as int;
                        lemma_decimal_at_unique(
                            bytes@,
                            7,
                            comma as int,
                            exp as int,
                            c_comma,
                            c.exp as int,
                        );
                        lemma_decimal_at_unique(
                            bytes@,
                            comma + 11,
                            close as int,
                            user_id as int,
                            c_comma + 11 + decimal(c.user_id as int).len() as int,
                            c.user_id as int,
                        );
                    }
                }
            }
            return None;
        }
        let claims = Claims { exp, user_id };
        proof {
            assert(bytes@ =~= bytes@.subrange(0, 7) + bytes@.subrange(7, comma as int)
                + bytes@.subrange(comma as int, comma + 11) + bytes@.subrange(
                comma + 11,
                close as int,
            ) + seq![CLOSE]);
            lemma_claims_round_trip(claims);
        }
        Some(claims)
    }
}

} // verus!
