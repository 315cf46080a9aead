pub mod align;
pub mod filtering;
pub mod ieee;
pub mod json;
pub mod ordered_key;
pub mod socket_addr;
pub mod socket_addr_text;
pub mod sorted_map;
pub mod split;
pub mod system;
pub mod text;
pub mod vec4u8;
