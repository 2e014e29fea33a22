use vstd::prelude::*;

pub mod expr;
pub mod lexer;
pub mod parser;
pub mod eval;
pub mod display;
pub mod roundtrip;

verus! {

} // verus!
