//! Control of a server: short questions and answers.

pub mod client;
pub mod endpoint;
pub mod inproc;
pub mod messages;
pub mod server;

pub use endpoint::Endpoint;
pub use messages::{Request, Response, ServerInfo};
