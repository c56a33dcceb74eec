//! A minimal, dynamically typed, imperative scripting language: a lexer, a
//! recursive-descent parser and a tree-walking evaluator, each verified
//! against a mathematical model of the language.
//!
//! The pipeline is strictly linear: source text is turned into a token
//! sequence by [`tokenizer::tokenize`], the tokens into a syntax tree by
//! [`parser::parse`], and the tree is executed by [`interpreter::interpret`],
//! which returns the lines the program printed together with the first fatal
//! runtime error, if any.

pub mod ast;
pub mod env;
pub mod interpreter;
pub mod laws;
pub mod parser;
pub mod token;
pub mod tokenizer;

pub use ast::ASTNode;
pub use interpreter::interpret;
pub use parser::parse;
pub use token::Token;
pub use tokenizer::tokenize;
