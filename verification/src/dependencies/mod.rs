pub mod get;
pub mod toml_to_struct;
