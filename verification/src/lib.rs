//! Domain logic of the account service: configuration lookup rules,
//! service errors, signed session tokens, peppered password hashing and
//! the decisions taken while logging in, signing up and checking sessions.

pub mod action;
pub mod config;
pub mod crypto;
pub mod entity;
pub mod error;
pub mod schema;
