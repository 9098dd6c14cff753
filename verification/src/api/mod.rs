pub mod base64;
pub mod main_frame;
