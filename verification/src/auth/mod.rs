pub mod credential;
pub mod header;
pub mod middleware;
pub mod protocols;
pub mod session;
