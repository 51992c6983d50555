pub mod error;
pub mod laws;
pub mod manager;
pub mod model;

