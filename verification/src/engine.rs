pub mod engine;
pub mod error;
pub mod scope;
pub mod value;
