pub mod cli;
pub mod command;
pub mod dictionary;
pub mod executor;
pub mod lines;
pub mod nixos;
pub mod path;
pub mod planner;
pub mod resolver;
pub mod text;
pub mod validator;
