pub mod library;
pub mod media;
pub mod misc;
pub mod plugin;
