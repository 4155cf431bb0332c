//! Credential store and configuration bootstrap for a small administrative
//! tool: salted password hashing, discovery and creation of a TOML-like
//! configuration file, and safe create/read/update/delete operations on user
//! credentials.

pub mod config;
pub mod context;
pub mod error;
pub mod models;
pub mod store;
pub mod util;
