//! Front end and execution core of the Astra language: a lexer, a parser,
//! a bytecode emitter and a register machine, each with a machine-checked
//! contract.
//!
//! Source text flows through the modules in this order: [`lexer`] turns it
//! into tokens ([`token`]), [`parser`] builds the syntax tree ([`ast`])
//! that [`grammar`] prescribes, [`emitter`] compiles the tree to
//! instructions ([`op`]), and [`vm`] executes them over its registers and
//! its [`memory`]. [`repl`] runs the whole pipeline in one call, and
//! [`semantics`] proves of it that constant expressions evaluate to their
//! arithmetic value.

pub mod ast;
pub mod emitter;
pub mod grammar;
pub mod lexer;
pub mod memory;
pub mod op;
pub mod parser;
pub mod repl;
pub mod semantics;
pub mod text;
pub mod token;
pub mod vm;
