//! A backend that shows all surfaces side by side in one window.

pub mod backend;
pub mod compositor;
pub mod layout;
pub mod surfaces;
pub mod told;
