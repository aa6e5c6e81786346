//! Extraction of C preprocessor macro definitions and their expansion over C source text.

pub mod c_macro;
pub mod header_file;
pub mod header_file_proc;
pub mod source_file_proc;
pub mod statements;
pub mod text;

use vstd::prelude::*;

verus! {

/// `std::io::Error`, carried opaque inside `Error::IoError`.
#[verifier::external_type_specification]
#[verifier::external_body]
pub struct ExIoError(std::io::Error);

/// What can go wrong in a run.
#[derive(Debug)]
pub enum Error {
    /// Reading the input or writing the output failed.
    IoError(std::io::Error),
    /// A definition does not have the shape `#define NAME(params) body`; it is held here.
    InvalidMacro(String),
    /// The definition pattern was refused by the regular-expression engine, for the reason held.
    InvalidPattern(String),
    /// The syntax tree of a source could not be built or does not fit it; the reason is held.
    SyntaxTree(String),
}

} // verus!
