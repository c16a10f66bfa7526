pub mod action;
pub mod command;

pub use action::Action;
pub use command::{Command, Target};
