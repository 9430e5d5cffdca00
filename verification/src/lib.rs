//! A lexer, parser, IR compiler and runtime support library for the Raccoon language.
pub mod error;
pub mod text;
pub mod tokens;
pub mod lexer;
pub mod ast;
pub mod output_style;
pub mod parser;
pub mod runtime;
pub mod ir;
