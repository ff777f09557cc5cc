pub mod bump;
pub mod cargo;
pub mod cargo_toml;
pub mod catalog;
pub mod commands;
pub mod dependencies;
pub mod document;
pub mod editing;
pub mod error;
pub mod registry;
pub mod text;
pub mod version;
pub mod workspace;

pub use cargo::Cargo;
pub use catalog::{Crate, CrateType, RustApp, RustCrate, RustModule};
pub use error::CargoError;
