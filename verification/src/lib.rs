//! synta: a lexer and a parser for a small expression language, with their
//! behaviour stated as contracts and proved.
//!
//! - [`lexer`] reads source text into tokens ([`lexer::Lexer`], [`lexer::tokenize`]).
//! - [`parser`] builds expressions from a list of token kinds ([`parser::Parser`]).
pub mod lexer;
pub mod parser;
