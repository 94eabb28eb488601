//! A small compiler for a minimal C-like language: one function, no
//! parameters, whose body is a single `return <expression>;` statement,
//! where the expression is an integer literal under any number of unary
//! operators.  Source text is lexed into tokens, parsed into an abstract
//! syntax tree, and compiled to assembly text.

pub mod compile;
pub mod lex;
pub mod parse;
