//! Keeping a window's traffic lights, the buttons at the left of a macOS title bar, where
//! the application wants them, and telling the page how much room they take.
//!
//! The library decides; reading and moving native views, and running scripts in the page,
//! is left to its caller.
pub mod delegate;
pub mod inset;
pub mod laws;
pub mod layout;
pub mod points;
pub mod rounding;
pub mod script;
pub mod template;
pub mod window;
