pub mod audio;
pub mod engine;
pub mod game;
pub mod render;
pub mod resources;
