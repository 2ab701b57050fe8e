//! A small dynamically typed scripting language: tokens, a recursive-descent
//! parser, a gradual type checker and a tree-walking evaluator with lexical
//! scoping and closures. Every function states its behaviour over a
//! mathematical model of its data and is proved against it.

pub mod lexer;
pub mod token;
pub mod parser;
pub mod visitors;
