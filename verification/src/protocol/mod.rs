pub mod errors;
pub mod events;
pub mod types;
