pub mod capabilities;
pub mod config;
pub mod consts;
pub mod error;
pub mod events;
pub mod settings;
pub mod shaders;
pub mod utils;
