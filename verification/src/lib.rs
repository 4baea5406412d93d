//! Front end of a small markup/template language: a pull lexer, a
//! recursive-descent parser building a span-annotated syntax tree, and the
//! span/diagnostic model shared by both.

pub mod chars;
pub mod errors;
pub mod lexer;
pub mod nodes;
pub mod parser;
pub mod props;
pub mod scan;
pub mod spans;
pub mod text;
pub mod tokens;
