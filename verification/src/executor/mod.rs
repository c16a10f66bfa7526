pub mod error;
pub mod executor;
pub mod package;
pub mod service;

pub use error::ExecutorError;
pub use executor::{ExecutionEvent, ExecutionStep, Executor, ModuleFile};
