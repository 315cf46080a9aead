//! A backend that gives each toplevel and popup a window of its own.

pub mod app;
pub mod events;
pub mod frames;
pub mod input;
pub mod keymap;
pub mod model;
pub mod options;
pub mod outputs;
pub mod popups;
pub mod surfaces;
pub mod told;
