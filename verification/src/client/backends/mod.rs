pub mod html;
pub mod selected_window;
pub mod sgr_pixels;
pub mod sgr_screen;
pub mod smithay_client;
pub mod terminal;
pub mod termwiz_image;
pub mod winit_wgpu;
