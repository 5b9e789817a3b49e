//! A small ahead-of-time compiler for a tiny imperative language: a statement
//! parser that builds a typed statement/expression tree with lexical-scope
//! bookkeeping, and a code generator that lowers that tree to x86-64 assembly
//! text.
pub mod assembler;
pub mod data;
pub mod laws;
pub mod optimizer;
pub mod tokenizer;
pub mod util;
