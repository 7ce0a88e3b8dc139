//! Emulator launch model: argument-template expansion for launch profiles.
//!
//! Profile resolution and process spawning are the application's job; the
//! library owns the template language (`template`).

pub mod template;
