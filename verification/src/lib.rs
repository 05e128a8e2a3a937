pub mod adapter;
pub mod app_config;
pub mod loader;
pub mod parser;
pub mod scanner;
pub mod task;
pub mod text;
pub mod toml_text;
