//! Accounts and sessions: the records, the operations on them, and the
//! entry point that registers a new user.

pub mod handlers;
pub mod laws;
pub mod models;
