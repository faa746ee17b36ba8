pub mod api;
pub mod mixer;
pub mod music;
pub mod loops;
