//! A small interpreted expression language: a recursive-descent,
//! precedence-climbing parser turns a token stream into a span-annotated
//! syntax tree, and a tree-walking engine evaluates it against a global
//! frame and a stack of call frames. Numbers are arbitrary-precision
//! integers and decimals; every operator's coercion behaviour is written
//! down in one table the evaluator is proved against.

pub mod cache;
pub mod engine;
pub mod num;
pub mod parser;
