//! The front end of a toolchain for a minimal imperative language: a
//! recursive-descent parser from source text to a syntax tree, a static
//! type checker, and a tree-walking interpreter. The checker and the
//! interpreter walk the same tree over one scoped-environment
//! abstraction, a stack of contexts of scopes, with lexical shadowing,
//! recursive calls and early-return unwinding. Every function's meaning
//! is stated against a mathematical model of the same walk and proved.

pub mod ast;
pub mod context;
pub mod parser;
pub mod type_checker;
pub mod interpreter;
pub mod laws;
