//! Credentials and session tokens.

pub mod base64;
pub mod claims;
pub mod clock;
pub mod decimal;
pub mod mac;
pub mod pwd;
pub mod token;
