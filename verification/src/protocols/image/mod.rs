pub mod codecs;
pub mod pixels;
pub mod png;
