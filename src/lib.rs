//! Engine-independent model of a small windowed demo: a window whose mode
//! is toggled from the keyboard, a spinning cube, an options menu with two
//! buttons, and an exit key. Each per-frame handler is a verified function
//! over a plain `World` value; the engine glue lives outside this library.

pub mod window;
pub mod world;
pub mod handlers;
pub mod menu;
pub mod frame;
