//! What the routes do once a request is let in.

pub mod conversations;
pub mod user;
