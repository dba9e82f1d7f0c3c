//! Credential and session management: accounts with salted password hashes,
//! time-limited bearer sessions, and the store that holds both.

pub mod clock;
pub mod ident;
pub mod password;
pub mod pattern;
pub mod seqs;
pub mod state;
pub mod store;
pub mod users;
