pub mod build_toml_generation;
pub mod raw;
pub mod toml_completeness;
pub mod toml_generator;
pub mod toml_parser;
pub mod value;
