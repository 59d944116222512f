pub mod auth;
pub mod tokens;
