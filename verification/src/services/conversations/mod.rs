//! Conversations between users.

use vstd::prelude::*;

pub mod error;

verus! {

/// The other end of a conversation.
pub struct OtherUserInfo {
    pub id: i64,
    pub username: String,
    pub profile_picture_url: Option<String>,
}

/// A conversation as it is listed.
pub struct Conversation {
    pub id: i64,
    pub other_user: Option<OtherUserInfo>,
}

} // verus!
