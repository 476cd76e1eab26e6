//! The failure taxonomy of a run. Every error is terminal: the first failure
//! anywhere aborts evaluation and is returned to the caller.
use vstd::prelude::*;

verus! {

#[derive(Debug, Clone, Copy, PartialEq, Eq, Structural)]
pub enum Error {
    /// A variable was read that the current frame does not hold.
    UndefinedVariable,
    /// A call named a function that was never declared.
    UndefinedFunction,
    /// A call supplied a number of arguments different from the function's
    /// parameter count.
    ArityMismatch,
    /// A declaration, assignment or operator met a value of the wrong kind.
    TypeMismatch,
    /// A declaration reused a name that already exists in the current frame
    /// with the same kind. (Reusing it with a different kind is a
    /// `TypeMismatch`: the kind check comes first.)
    Redeclaration,
    /// A malformed entry stood in an operation chain, or a node that is no
    /// statement stood in statement position.
    InvalidOperation,
    /// The input channel could not be read as text.
    IOError,
    /// The input text did not parse into the requested kind.
    ParseInputError,
}

impl Error {
    /// A short description, for reporting outside the library.
    pub fn describe(&self) -> (r: &'static str)
        ensures
            r@ == self.describe_text(),
    {
        match self {
            Error::UndefinedVariable => "No variable found",
            Error::UndefinedFunction => "Function not defined",
            Error::ArityMismatch => "Parameters do not match arguments",
            Error::TypeMismatch => "Cannot use a value of this type here",
            Error::Redeclaration => "Cannot redeclare a variable",
            Error::InvalidOperation => "Invalid operation",
            Error::IOError => "Unable to read input",
            Error::ParseInputError => "Unable to convert input",
        }
    }

    pub open spec fn describe_text(&self) -> Seq<char> {
        match self {
            Error::UndefinedVariable => "No variable found"@,
            Error::UndefinedFunction => "Function not defined"@,
            Error::ArityMismatch => "Parameters do not match arguments"@,
            Error::TypeMismatch => "Cannot use a value of this type here"@,
            Error::Redeclaration => "Cannot redeclare a variable"@,
            Error::InvalidOperation => "Invalid operation"@,
            Error::IOError => "Unable to read input"@,
            Error::ParseInputError => "Unable to convert input"@,
        }
    }
}

} // verus!
