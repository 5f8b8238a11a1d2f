//! Graphics protocol support: Kitty command parsing, image storage with a
//! memory quota and LRU eviction, and placement tracking.
//!
//! All image data is stored in BGRA format; RGB and RGBA data is converted
//! to BGRA before storage.

pub mod error;
pub mod kitty;
pub mod kitty_laws;
pub mod manager;
pub mod numparse;
pub mod types;
