//! Decisions taken while signing up, logging in and checking sessions; the
//! caller performs the database work around them.

pub mod session;
pub mod user;
