//! Errors of the translator.

use vstd::prelude::*;

verus! {

/// Why a source could not be translated. `line` counts from 1.
#[derive(Debug)]
pub enum CompilationError {
    /// The source file could not be read.
    FileAccessing { file: String },
    /// The first word of a line is not a command.
    UnknownCommand { line: usize },
    /// A command lacks an argument, or a number does not read.
    SintaxError { line: usize },
    /// A `push` or `pop` names no memory segment.
    UnknownMemorySegment { line: usize },
    /// A branching command names a label that no line declares.
    UnknownLabel { line: usize },
}

/// A `CompilationError` with the path of the file where it arose.
#[derive(Debug)]
pub struct CompError {
    compilation_error: CompilationError,
    file: String,
}

impl CompError {
    /// An error `compilation_error` that arose in the file at `file`.
    pub(crate) fn new(compilation_error: CompilationError, file: String) -> (r: CompError)
        ensures
            r.error_spec() == compilation_error,
            r.file_spec() == file@,
    {
        CompError { compilation_error, file }
    }

    /// The error.
    pub fn compilation_error(&self) -> (r: &CompilationError)
        ensures
            *r == self.error_spec(),
    {
        &self.compilation_error
    }

    /// The path of the file where the error arose.
    pub fn file_str(&self) -> (r: &str)
        ensures
            r@ == self.file_spec(),
    {
        self.file.as_str()
    }

    /// The error's parts, for contracts.
    pub closed spec fn error_spec(&self) -> CompilationError {
        self.compilation_error
    }

    /// The path, for contracts.
    pub closed spec fn file_spec(&self) -> Seq<char> {
        self.file@
    }
}

} // verus!
