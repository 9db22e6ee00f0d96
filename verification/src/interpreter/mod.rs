pub mod evaluator;
pub mod lexer;
pub mod parser;
