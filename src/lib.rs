pub mod command;
pub mod laws;
pub mod listing;
pub mod path;
pub mod reply;
pub mod session;
pub mod text;
