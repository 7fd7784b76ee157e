pub mod dependencies;
pub mod toml;
pub mod text;
