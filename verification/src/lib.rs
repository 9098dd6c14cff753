pub mod api;
pub mod protocol;
pub mod json;
pub mod text;
pub mod cli;
pub mod registry;
