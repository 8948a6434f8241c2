//! The job and converter vocabulary of the application.

pub mod converter;
pub mod job;
pub mod file_entry;
