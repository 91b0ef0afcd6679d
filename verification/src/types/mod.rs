//! The shapes of what the server answers.

pub mod response;
