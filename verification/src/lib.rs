//! A diagnostic-decoration engine: given the structural model of one
//! declared field — its type annotation, its optional attribute
//! expressions, and a list of verbatim keyword spans — it produces a
//! per-source-line table of colored column ranges for a renderer to
//! overlay onto the printed source. The whole pipeline is one pure
//! function of its input, with no failure path: a malformed attribute
//! stream contributes nothing and every other slot is decorated
//! unaffected.

use vstd::prelude::*;

pub mod keywords;
pub mod syntax;
pub mod visit;
pub mod aggregate;
pub mod field;

verus! {

/// The five logical categories a highlighted token can belong to.
#[derive(Clone, Copy, PartialEq, Eq, Structural, Debug)]
pub enum Color {
    String,
    Char,
    Number,
    Keyword,
    Function,
}

/// A half-open column range `[start, end)` on one source line, with its color.
#[derive(Clone, Copy, PartialEq, Eq, Structural, Debug)]
pub struct Highlight {
    pub start: usize,
    pub end: usize,
    pub color: Color,
}

} // verus!
