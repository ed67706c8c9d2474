pub mod api;
pub mod config;
pub mod devices;
pub mod hotkeys;
pub mod pipeline;
pub mod text;
pub mod wav;
