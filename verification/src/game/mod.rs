pub mod input;
pub mod map;
