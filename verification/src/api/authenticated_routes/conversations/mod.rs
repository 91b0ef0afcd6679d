//! Listing conversations.

pub mod error;
