//! Decision core of a sandbox execution service.
pub mod calendar;
pub mod clock;
pub mod config;
pub mod digest;
pub mod error;
pub mod fetch;
pub mod messages;
pub mod multipart;
pub mod oss;
pub mod paths;
pub mod runtime;
pub mod service;
pub mod text;
pub mod tools;
pub mod workspace;

pub use crate::error::{Error, Result};
