//! A small task-list library: an immediate-mode text layout engine,
//! cursor-based list navigation and mutation, and a line-oriented
//! persistence codec.

pub mod codec;
pub mod layout;
pub mod list;
pub mod ui;
pub mod vec2;
