//! A URL-shortening core: identifier generation, a redirect table with
//! store-enforced uniqueness, and the register / resolve / delete services.

pub mod config;
pub mod generate;
pub mod laws;
pub mod service;
pub mod store;
