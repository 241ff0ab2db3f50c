//! Switching between English and Russian alone, by statistics alone.

pub mod buffer;
pub mod settings;
pub mod hook;
pub mod tray;
pub mod logger;
pub mod window;
pub mod laws;
