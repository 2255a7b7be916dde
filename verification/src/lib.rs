//! Compiler middle stage for a small Scheme-like language: it takes a parsed
//! abstract syntax tree and produces code for a stack-based abstract machine
//! in the classic SECD style — load-constant, select/join branching, list
//! and arithmetic primitives, environment access by `(frame, slot)`
//! coordinate, and closure construction.
//!
//! The crate is organised leaves-first:
//! - [`cell`] holds the instruction vocabulary and the nested code-list type
//!   the generator emits, with the structured compile errors;
//! - [`scope`] holds the chained, fork-able symbol table mapping identifier
//!   names to runtime coordinates;
//! - [`ast`] holds the closed union of expression node variants;
//! - [`compile`] holds one compilation rule per node variant, stated as spec
//!   functions and proved of the executable `compile` methods;
//! - [`pretty`] holds the indented diagnostic rendering of a tree.
//!
//! The parser that produces the input tree and the machine that executes the
//! emitted code are external collaborators; this crate fixes only the tree
//! shape it accepts and the instruction vocabulary it emits.

pub mod ast;
pub mod cell;
pub mod compile;
pub mod pretty;
pub mod scope;
