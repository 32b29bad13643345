//! Credential management for a web service: password hashing, session
//! tokens, the user table and the flows that tie them together.

pub mod auth;
pub mod config;
pub mod database;
pub mod errors;
pub mod ident;
pub mod password;
pub mod text;
pub mod timestamp;
pub mod token;
pub mod user;
