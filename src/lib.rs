pub mod models;
pub mod rules;
pub mod text;
pub mod digest;
