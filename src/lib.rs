//! Observes a running VVVVVV process: finds the game object in its memory,
//! decodes it, and turns successive observations into split-timer events and
//! the commands that carry them.

pub mod layout;
pub mod tracker;
pub mod locator;
pub mod command;
