//! Job planning, validation and naming rules of a local desktop file converter.

pub mod text;
pub mod paths;
pub mod domain;
pub mod application;
pub mod platform;
