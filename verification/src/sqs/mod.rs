pub mod limits;
pub mod messages;
pub mod method;
pub mod request;
pub mod types;
