//! Core evaluator of a Lisp-family interpreter.
//!
//! A parsed program is a set of namespaces whose definitions are trees of
//! literal values, symbols and list forms.  The library resolves every symbol
//! of a definition (the preprocessor), expands macros at resolution time, and
//! evaluates the resolved tree to a value.  All data is modelled with plain
//! vectors, and every public operation carries a contract against a
//! mathematical model of the interpreter.

pub mod builtins;
pub mod call_stack;
pub mod data;
pub mod laws;
pub mod primes;
pub mod program;
pub mod runner;
pub mod util;

pub use primes::Calcit;
