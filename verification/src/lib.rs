//! NerveMQ: an SQS-compatible message queue. This crate holds the verified
//! core: request parsing, signature checking, message attribute encoding,
//! configuration merging, access rules and the message lifecycle.

pub mod api;
pub mod auth;
pub mod cli;
pub mod config;
pub mod text;
pub mod digest;
pub mod error;
pub mod kms;
pub mod message;
pub mod numeric;
pub mod service;
pub mod sqs;
