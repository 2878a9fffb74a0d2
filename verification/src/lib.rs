//! A compiler front end: a character-level backtracking parser, a pluggable
//! token-stream layer, an AST node arena, and a lexically scoped
//! name-resolution engine with ranked diagnostic hints.

pub mod text;
pub mod source;
pub mod parser;
pub mod entity;
pub mod ast;
pub mod pool;
pub mod checker;
pub mod tokenizer;
