//! The library for the sol language compiler: a verified lexical scanner.
//!
//! The `lexer` module turns source text into a sequence of tokens. Its behaviour is
//! stated over a mathematical model of scanning, and every executable function is
//! proved to follow that model.
use vstd::prelude::*;

pub mod lexer;

verus! {

} // verus!
