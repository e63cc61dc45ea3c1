//! Verified core of a desktop color picker: the bounded queue and lifecycle of a
//! global mouse-click watcher, and the decoding of screen pixels and captured regions.

pub mod event;
pub mod picker;
