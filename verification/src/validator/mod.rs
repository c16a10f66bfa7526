pub mod error;
pub mod validator;

pub use error::ValidationError;
pub use validator::Validator;
