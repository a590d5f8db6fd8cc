//! A minimal interpreter for a stack-based scripting language: source text
//! is tokenized and parsed into a sequence of typed values, then executed
//! step by step against a shared data stack and a flat name environment.
//! The machine asks its driver for the few native number operations it
//! cannot perform itself and for all output, and everything else — scanning,
//! classification, coercions, dispatch, binding, control flow and the
//! non-local return counter — is specified and verified here.
use vstd::prelude::*;

pub mod interp;
pub mod lexer;
pub mod parser;
pub mod value;

verus! {

} // verus!
