//! A compiler for the smallest subset of C: one function whose body
//! returns an integer constant. Source text is lexed into tokens, parsed
//! into a syntax tree, lowered to an assembly model and emitted as assembly
//! text for a chosen target. Every error carries the span of the source it
//! is about, from which a diagnostic is rendered.
pub mod span;
pub mod text;
pub mod token;
pub mod error;
pub mod lexer;
pub mod ast;
pub mod parser;
pub mod assembly;
pub mod pretty;
pub mod emit;
pub mod diagnostic;
pub mod driver;
