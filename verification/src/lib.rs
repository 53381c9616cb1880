//! Runtime core of a small dynamically-typed scripting language: a
//! tree-walking evaluator over a lexically scoped environment, together
//! with the scanner and recursive-descent parser that produce its input.
//!
//! The language's semantics — binding and mutation, closures, first-class
//! functions, control flow, early return, and arrays and records with
//! reference semantics — are stated once, mathematically, in `semantics`,
//! and the executable evaluator in `execute` is proved to compute exactly
//! that function of its inputs. `environment` holds the scope chain,
//! `value` the runtime values, `object` the key/value records; `scanner`
//! and `parser` are the mechanical front end.

pub mod environment;
pub mod execute;
pub mod object;
pub mod parser;
pub mod scanner;
pub mod semantics;
pub mod value;
