//! Translator from the stack-based VM language to Hack assembly.

pub mod text;
pub mod number;
pub mod labels;
pub mod error;
pub mod command;
pub mod assembly;
pub mod program;
pub mod compiler;
pub mod hack;
pub mod semantics;
pub mod comparison;
pub mod function_entry;
pub mod function_call;
pub mod function_return;
pub mod jumps;

pub use compiler::Compiler;
pub use error::{CompError, CompilationError};
pub use program::ComandosParseados;
