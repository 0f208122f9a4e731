pub mod config;
pub mod engine;
pub mod env_map;
pub mod error;
pub mod modules;
pub mod path;
pub mod text;
pub mod types;
