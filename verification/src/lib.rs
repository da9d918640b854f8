//! The verified core of a focus timer for streamers: a stopwatch that is read
//! from explicit monotonic durations, its preferences and how they are kept on
//! disk, its four global shortcuts, and the rules by which user input changes
//! them.

pub mod action;
pub mod capture;
pub mod color;
pub mod hotkey;
pub mod keys;
pub mod laws;
pub mod load;
pub mod ownership;
pub mod replace;
pub mod save;
pub mod scalar;
pub mod schema;
pub mod settings;
pub mod surface;
pub mod text;
pub mod time;
pub mod timer;
pub mod timer_app;
pub mod transaction;
pub mod viewport;
