pub mod manager;
pub mod types;
pub mod uid;
