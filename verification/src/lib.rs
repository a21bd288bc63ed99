//! Hielements: a language to describe and enforce software architecture.
//!
//! The crate holds the verified core of the language: source spans,
//! diagnostics, the lexer, the parser, the abstract syntax tree, the
//! documentation catalog, the pure parts of the interpreter and of the
//! standard libraries.
#![allow(unused_imports)]

pub mod text;
pub mod span;
pub mod diagnostics;
pub mod doc;
pub mod lexer;
pub mod ast;
pub mod parser;
pub mod grammar;
pub mod stdlib;
pub mod interpreter;
pub mod mcp;
pub mod fastapi;
pub mod cli;
