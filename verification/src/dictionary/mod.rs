pub mod data;
pub mod dictionary;

pub use dictionary::{AliasEntry, Dictionary};
