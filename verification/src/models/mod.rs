pub mod surface;
pub mod surface_model;
