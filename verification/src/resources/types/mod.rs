pub mod config;
pub mod map;
pub mod shader;
pub mod sound;
pub mod texture;
