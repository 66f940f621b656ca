//! A command-line chat agent: the verified core of its decisions.

pub mod text;
pub mod history;
pub mod tools;
pub mod agent;
pub mod session;
pub mod config;
pub mod stream;
