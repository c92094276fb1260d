pub mod error;
pub mod expr;
pub mod node;
pub mod statement;
pub mod token;
