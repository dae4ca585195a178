//! Cryptographic building blocks: signed tokens and peppered password hashes.

pub mod password;
pub mod token;
