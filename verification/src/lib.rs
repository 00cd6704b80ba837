pub mod expression;
pub mod statement;
pub mod token;
pub mod text;
pub mod ieee;
pub mod scanner;
pub mod grammar;
pub mod parser;
pub mod interpreter;
pub mod environment;
pub mod semantics;
pub mod equality;
pub mod sameness;
pub mod operators;
pub mod globals;
pub mod laws;
pub mod semantic_laws;
pub mod scope_laws;
pub mod value_laws;
pub mod scan_laws;
pub mod resolver;
pub mod runtime;

