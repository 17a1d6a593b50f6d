//! The graphics service.

pub mod font;
pub mod pattern;
pub mod text;
