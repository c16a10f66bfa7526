pub mod resolver;

pub use resolver::{ResolvedTarget, Resolver};
