//! A verified tree-walking evaluator for a small dynamically typed
//! expression language: integers, strings, booleans, tuples, first-class
//! functions with lexical closures, `let` bindings and conditionals.
//!
//! The crate is organised leaves first:
//! - `ast`: the term language and its mathematical model,
//! - `text`: verified string comparison and decimal rendering helpers,
//! - `value`: runtime values, lexical scopes and their models,
//! - `render`: the textual rendering of values,
//! - `semantics`: the mathematical evaluation relation,
//! - `eval`: the executable evaluator, proved against `semantics`,
//! - `laws`: proved general properties of the semantics.

pub mod ast;
pub mod text;
pub mod value;
pub mod render;
pub mod semantics;
pub mod eval;
pub mod laws;
