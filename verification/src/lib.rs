//! The decisions of a small server monitor: what each request is answered, what the command line
//! means, how the container engine is found and read, and which images may be removed.

pub mod base64;
pub mod config;
pub mod engine;
pub mod http;
pub mod laws;
pub mod state;
pub mod text;
