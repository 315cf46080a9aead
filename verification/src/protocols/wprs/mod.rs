pub mod capabilities;
pub mod client_sync;
pub mod endpoint;
pub mod endpoint_text;
pub mod frame_codecs;
pub mod framing;
pub mod geometry;
pub mod handshake;
pub mod raw_buffer;
pub mod serializer;
pub mod ssh_forward;
pub mod transport;
pub mod tuple;
pub mod types;
pub mod wayland;
pub mod xdg_shell;
