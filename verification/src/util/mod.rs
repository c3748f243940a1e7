//! Small verified helpers on text.

pub mod color;
pub mod home;
pub mod results;
pub mod shell;
pub mod text;
