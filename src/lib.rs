//! Constant folding and compile-time evaluation of C expressions.
//!
//! The folder walks a typed expression tree and reduces it either to a
//! literal or to an equivalent tree whose foldable parts have been evaluated.
use std::collections::VecDeque;

use vstd::prelude::*;

pub mod error;
pub mod expr;
pub mod fold;
pub mod intern;
pub mod lex;
pub mod theorems;
pub mod types;

pub use error::{CompileError, CompileResult, SemanticError};
pub use expr::{Expr, ExprType};
pub use intern::InternedStr;
pub use lex::{AssignmentToken, ComparisonToken, Keyword, Literal, Locatable, Location, Span, Token};
pub use types::{ArrayType, FunctionType, SizeofError, Type};

verus! {

/// What can go wrong when building a program.
#[derive(Debug)]
pub enum Error {
    /// Errors in the source program, in the order they were found.
    Source(VecDeque<CompileError>),
    /// The target platform refused the program.
    Platform(String),
    /// Reading or writing a file failed.
    IO(std::io::Error),
}

/// std's I/O error, carried by `Error::IO` and never looked into.
#[verifier::external_type_specification]
#[verifier::external_body]
pub struct ExIoError(std::io::Error);

impl From<CompileError> for Error {
    fn from(err: CompileError) -> (r: Error)
        ensures
            r matches Error::Source(errs) && errs@ == seq![err],
    {
        let mut errs = VecDeque::new();
        errs.push_back(err);
        Error::Source(errs)
    }
}

impl vstd::std_specs::convert::FromSpecImpl<CompileError> for Error {
    open spec fn obeys_from_spec() -> bool {
        false
    }

    open spec fn from_spec(err: CompileError) -> Error {
        vstd::pervasive::arbitrary()
    }
}

impl From<VecDeque<CompileError>> for Error {
    fn from(errs: VecDeque<CompileError>) -> (r: Error)
        ensures
            r == Error::Source(errs),
    {
        Error::Source(errs)
    }
}

impl vstd::std_specs::convert::FromSpecImpl<VecDeque<CompileError>> for Error {
    open spec fn obeys_from_spec() -> bool {
        true
    }

    open spec fn from_spec(errs: VecDeque<CompileError>) -> Error {
        Error::Source(errs)
    }
}

impl From<std::io::Error> for Error {
    fn from(err: std::io::Error) -> (r: Error)
        ensures
            r == Error::IO(err),
    {
        Error::IO(err)
    }
}

impl vstd::std_specs::convert::FromSpecImpl<std::io::Error> for Error {
    open spec fn obeys_from_spec() -> bool {
        true
    }

    open spec fn from_spec(err: std::io::Error) -> Error {
        Error::IO(err)
    }
}

} // verus!
