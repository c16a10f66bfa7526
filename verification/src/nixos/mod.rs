pub mod discovery;
pub mod flake;
pub mod generator;
pub mod import;
pub mod module;
pub mod rebuild;
