//! The routes behind the guard.

pub mod conversations;
pub mod user;
