//! A small one-function JIT compiler: source text is lexed and parsed into an
//! annotated expression tree, scope- and type-checked, lowered into a typed
//! intermediate representation, and translated into native code through
//! cranelift. The translation is specified as a sequence of code-generation
//! actions; the cranelift calls the backend makes are proved to follow that
//! sequence exactly.

pub mod acts;
pub mod analyzer;
pub mod ast;
pub mod backend;
pub mod builder;
pub mod compiler;
pub mod error;
pub mod ir;
pub mod laws;
pub mod lexer;
pub mod lower;
pub mod parser;
pub mod semantics;
pub mod string_spliter;
pub mod token;
pub mod trans;
pub mod typechecker;
