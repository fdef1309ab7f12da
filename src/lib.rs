pub mod ast;
pub mod error;
pub mod number;
pub mod token;
pub mod value;
pub mod lexer;
pub mod parser;
pub mod environment;
pub mod interpreter;
pub mod rendering;
