//! A small dynamically-typed scripting language: a scanner, a recursive-descent
//! parser with multi-error recovery, and an interpreter that walks the syntax tree
//! as a step machine.
use vstd::prelude::*;

pub mod token;
pub mod scanner;
pub mod ast;
pub mod grammar;
pub mod parser;
pub mod environment;
pub mod number;
pub mod interpreter;
pub mod theorems;
pub mod printer;

verus! {

} // verus!
