//! Compiles CLDR plural rules: a parser for the rule grammar, the evaluation
//! of parsed conditions over the operands of a number, the ordered decision
//! chain of a locale, the registry of all locales by rule type, and the
//! packing of locale identifiers into integers.
use vstd::prelude::*;

pub mod ast;
pub mod decision;
pub mod eval;
pub mod grammar;
pub mod langid;
pub mod number;
pub mod parser;

verus! {

} // verus!
