pub mod backend;
pub mod backends;
pub mod config;
pub mod coords;
pub mod message_backend;
pub mod runner;
pub mod session;
pub mod state;
pub mod surface_registry;
pub mod wayland_server;
pub mod window_manager;
