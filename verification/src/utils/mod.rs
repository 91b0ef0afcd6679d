//! Small things shared by the layers.

pub mod error;
pub mod extensions;
pub mod text;
