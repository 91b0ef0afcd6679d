//! What the routes decide before and after the services run.

pub mod auth;
pub mod authenticated_routes;
