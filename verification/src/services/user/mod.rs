//! Signing up and logging in.
//!
//! The store is not reached from here. Each step takes what the store
//! answered and says what is to be done next, so that the order of hashing,
//! checking and signing is fixed in one place.

use crate::crypt::pwd::{hash_password, hash_password_with_salt, hashed_under, verify_password};
use crate::crypt::pwd::{verify_outcome, Error as PwdError};
use crate::crypt::clock::unix_now;
use crate::crypt::token::{create_token_at, token_text, TokenCodec};
use vstd::prelude::*;
use vstd::string::*;
use vstd::utf8::encode_utf8;

pub mod error;

use error::Error;

verus! {

/// Signs users up and logs them in, with the codec that issues their tokens.
pub struct UserService {
    codec: TokenCodec,
}

/// A user as the store holds them.
pub struct AuthUser {
    pub id: i64,
    /// The password record, never the password.
    pub password: String,
    pub username: String,
    pub profile_picture_url: Option<String>,
}

/// A user as a search lists them.
pub struct ListUser {
    pub username: String,
    pub profile_picture_url: Option<String>,
    pub id: i64,
}

/// A user who is online, with the conversation they share with the asker.
pub struct ListOnlineUser {
    pub conversation_id: i64,
    pub username: String,
    pub profile_picture_url: Option<String>,
    pub id: i64,
}

/// A name and a password, as a client sends them.
pub struct User {
    pub username: String,
    pub password: String,
}

/// A user who has proved who they are, with the token that says so.
pub struct AuthenticatedUser {
    pub id: i64,
    pub token: String,
    pub username: String,
    pub profile_picture_url: Option<String>,
}

/// A user the store has just taken in.
pub struct NewUser {
    pub id: i64,
    pub profile_picture_url: Option<String>,
    pub username: String,
}

/// What the store answered when asked for one row.
pub enum Lookup<T> {
    Found(T),
    /// The store has no such row.
    Missing,
    /// The store could not answer.
    Failed,
}

/// What the store answered to a step of signing up.
pub enum StoreReply {
    /// Whether the name is in use.
    NameTaken(bool),
    /// The user it took in.
    Inserted(NewUser),
    /// It could not answer.
    Failed,
}

/// Where signing up stands, and what is to be done next.
pub enum SignUp {
    /// Ask the store whether `username` is in use.
    CheckName { username: String, record: String },
    /// Have the store take the user in, with `record` for a password.
    Insert { username: String, record: String },
    /// Answer the client.
    Done(Result<AuthenticatedUser, Error>),
}

impl AuthUser {
    /// The user with `token`, and without the password record.
    #[inline]
    pub fn into_authenticated_user(self, token: String) -> (r: AuthenticatedUser)
        ensures
            r.id == self.id,
            r.token == token,
            r.username == self.username,
            r.profile_picture_url == self.profile_picture_url,
    {
        let AuthUser { profile_picture_url, username, id, .. } = self;
        AuthenticatedUser { id, username, token, profile_picture_url }
    }
}

/// `user` carries the token issued to them at `now`, and what `id`, `name`
/// and `picture` say of them.
pub open spec fn authenticated_as(
    codec: &TokenCodec,
    user: AuthenticatedUser,
    id: i64,
    name: String,
    picture: Option<String>,
    now: i64,
) -> bool {
    &&& user.id == id
    &&& user.username == name
    &&& user.profile_picture_url == picture
    &&& user.token@ == token_text(codec.secret(), id, now, codec.ttl())
}

/// `outcome` is what logging `user` in at `now` comes to, given what the
/// store holds under their name.
pub open spec fn logged_in_at(
    codec: &TokenCodec,
    user: &User,
    found: Lookup<AuthUser>,
    now: i64,
    outcome: Result<AuthenticatedUser, Error>,
) -> bool {
    match found {
        Lookup::Missing => outcome == Err::<AuthenticatedUser, Error>(
            Error::UsernamePasswordError,
        ),
        Lookup::Failed => outcome == Err::<AuthenticatedUser, Error>(Error::InternalError),
        Lookup::Found(stored) => match verify_outcome(
            encode_utf8(user.password@),
            stored.password@,
        ) {
            Ok(_) => outcome matches Ok(known) && authenticated_as(
                codec,
                known,
                stored.id,
                stored.username,
                stored.profile_picture_url,
                now,
            ),
            Err(PwdError::Mismatch) => outcome == Err::<AuthenticatedUser, Error>(
                Error::UsernamePasswordError,
            ),
            Err(_) => outcome == Err::<AuthenticatedUser, Error>(Error::InternalError),
        },
    }
}

/// `step` is the first step of signing `user` up with a record made under
/// `salt`: checking the name, or the end where no record could be made.
pub open spec fn begun_under(user: User, salt: Seq<char>, step: SignUp) -> bool {
    match step {
        SignUp::CheckName { username, record } => {
            &&& username == user.username
            &&& hashed_under(encode_utf8(user.password@), salt, Ok(record))
        },
        SignUp::Done(Err(e)) => {
            &&& e == Error::InternalError
            &&& hashed_under(encode_utf8(user.password@), salt, Err(PwdError::Internal))
        },
        _ => false,
    }
}

/// `next` is the step that follows `step` at `now`, once the store has
/// answered `reply`.
pub open spec fn resumed_at(
    codec: &TokenCodec,
    step: SignUp,
    reply: StoreReply,
    now: i64,
    next: SignUp,
) -> bool {
    match (step, reply) {
        (SignUp::CheckName { username, record }, StoreReply::NameTaken(taken)) => if taken {
            next == SignUp::Done(Err(Error::UsernameTaken))
        } else {
            next == (SignUp::Insert { username, record })
        },
        (SignUp::Insert { .. }, StoreReply::Inserted(added)) => next matches SignUp::Done(
            Ok(known),
        ) && authenticated_as(
            codec,
            known,
            added.id,
            added.username,
            added.profile_picture_url,
            now,
        ),
        (SignUp::Insert { .. }, StoreReply::Failed) => next == SignUp::Done(
            Err(Error::UnableToCreateUser),
        ),
        (SignUp::Done(outcome), _) => next == SignUp::Done(outcome),
        _ => next == SignUp::Done(Err(Error::InternalError)),
    }
}

impl UserService {
    /// The codec that issues the tokens.
    pub closed spec fn codec(&self) -> &TokenCodec {
        &self.codec
    }

    /// A service that issues its tokens with `codec`.
    pub fn new(codec: TokenCodec) -> (r: Self)
        ensures
            r.codec() == &codec,
    {
        UserService { codec }
    }

    /// The codec that issues the tokens.
    pub fn token_codec(&self) -> (r: &TokenCodec)
        ensures
            r == self.codec(),
    {
        &self.codec
    }

    /// Logs `user` in as of `now`, given what the store holds under their
    /// name.
    ///
    /// A name the store does not know and a wrong password give the same
    /// error. A record that cannot be read is the server's fault, not the
    /// user's.
    pub fn verify_password_at(&self, user: &User, found: Lookup<AuthUser>, now: i64) -> (r: Result<
        AuthenticatedUser,
        Error,
    >)
        ensures
            logged_in_at(self.codec(), user, found, now, r),
    {
        let stored = match found {
            Lookup::Found(stored) => stored,
            Lookup::Missing => {
                return Err(Error::UsernamePasswordError);
            },
            Lookup::Failed => {
                return Err(Error::InternalError);
            },
        };
        match verify_password(user.password.as_str().as_bytes(), stored.password.as_str()) {
            Ok(()) => {},
            Err(PwdError::Mismatch) => {
                return Err(Error::UsernamePasswordError);
            },
            Err(_) => {
                return Err(Error::InternalError);
            },
        }
        let token = match create_token_at(&self.codec, stored.id, now) {
            Ok(token) => token,
            Err(_) => {
                return Err(Error::InternalError);
            },
        };
        Ok(stored.into_authenticated_user(token))
    }

    /// Logs `user` in as of the present second.
    #[inline]
    pub fn verify_password(&self, user: &User, found: Lookup<AuthUser>) -> (r: Result<
        AuthenticatedUser,
        Error,
    >)
        ensures
            exists|now: i64| #[trigger] logged_in_at(self.codec(), user, found, now, r),
    {
        let now = unix_now();
        let r = self.verify_password_at(user, found, now);
        proof {
            assert(logged_in_at(self.codec(), user, found, now, r));
        }
        r
    }

    /// Begins to sign `user` up, with a record made under `salt`.
    pub fn add_user_with_salt(&self, user: User, salt: &str) -> (r: SignUp)
        ensures
            begun_under(user, salt@, r),
    {
        let User { username, password } = user;
        match hash_password_with_salt(password.as_str().as_bytes(), salt) {
            Ok(record) => SignUp::CheckName { username, record },
            Err(_) => SignUp::Done(Err(Error::InternalError)),
        }
    }

    /// Begins to sign `user` up: makes the record of their password, then
    /// asks for the name to be checked.
    #[inline]
    pub fn add_user(&self, user: User) -> (r: SignUp)
        ensures
            exists|salt: Seq<char>| #[trigger] begun_under(user, salt, r),
    {
        let User { username, password } = user;
        let hashed = hash_password(password.as_str().as_bytes());
        let ghost salt = choose|salt: Seq<char>| #[trigger]
            hashed_under(encode_utf8(password@), salt, hashed);
        let r = match hashed {
            Ok(record) => SignUp::CheckName { username, record },
            Err(_) => SignUp::Done(Err(Error::InternalError)),
        };
        proof {
            assert(begun_under(user, salt, r));
        }
        r
    }

    /// Takes signing up one step on as of `now`, given the store's answer
    /// to the step before.
    ///
    /// A name in use ends it. A user the store took in gets their token. An
    /// answer that does not belong to the step ends it as the server's
    /// fault.
    pub fn resume_at(&self, step: SignUp, reply: StoreReply, now: i64) -> (r: SignUp)
        ensures
            resumed_at(self.codec(), step, reply, now, r),
    {
        match step {
            SignUp::CheckName { username, record } => match reply {
                StoreReply::NameTaken(true) => SignUp::Done(Err(Error::UsernameTaken)),
                StoreReply::NameTaken(false) => SignUp::Insert { username, record },
                _ => SignUp::Done(Err(Error::InternalError)),
            },
            SignUp::Insert { username, record } => match reply {
                StoreReply::Inserted(added) => {
                    let token = match create_token_at(&self.codec, added.id, now) {
                        Ok(token) => token,
                        Err(_) => {
                            return SignUp::Done(Err(Error::InternalError));
                        },
                    };
                    let NewUser { username, profile_picture_url, id } = added;
                    SignUp::Done(Ok(AuthenticatedUser { id, profile_picture_url, username, token }))
                },
                StoreReply::Failed => SignUp::Done(Err(Error::UnableToCreateUser)),
                _ => SignUp::Done(Err(Error::InternalError)),
            },
            SignUp::Done(outcome) => SignUp::Done(outcome),
        }
    }

    /// Takes signing up one step on as of the present second.
    pub fn resume(&self, step: SignUp, reply: StoreReply) -> (r: SignUp)
        ensures
            exists|now: i64| #[trigger] resumed_at(self.codec(), step, reply, now, r),
    {
        let now = unix_now();
        let r = self.resume_at(step, reply, now);
        proof {
            assert(resumed_at(self.codec(), step, reply, now, r));
        }
        r
    }

    /// The pattern that finds the names that begin with `search`.
    pub fn search_pattern(search: String) -> (r: String)
        ensures
            r@ == search@.push('%'),
    {
        let mut pattern = search;
        pattern.append("%");
        proof {
            reveal_strlit("%");
            assert(pattern@ =~= search@.push('%'));
        }
        pattern
    }
}

} // verus!
