//! A translator for a three-point triangle language: a lexer, a fixed-shape
//! grammar check, and emitters for Scheme and Prolog code.
pub mod token;
pub mod lexer;
pub mod grammar;
pub mod template;
pub mod codegen;
pub mod pipeline;
pub mod laws;
pub mod layout;
