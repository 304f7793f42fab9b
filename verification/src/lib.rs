pub mod data;
pub mod env;
pub mod eval;
pub mod outside;
pub mod parser;
pub mod props;
pub mod semantics;
pub mod stdlisp;
pub mod text;
