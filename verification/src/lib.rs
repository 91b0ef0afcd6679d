//! Authentication core of the Proximiti server: password records, signed
//! session tokens and the guard that admits requests carrying one.

pub mod api;
pub mod auth_service;
pub mod config;
pub mod crypt;
pub mod ctx;
pub mod middleware;
pub mod services;
pub mod types;
pub mod utils;
