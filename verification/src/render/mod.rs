pub mod api;
pub mod shaders;
