//! The error taxonomy of a compilation run.
//!
//! Every error is fatal and unrecoverable: detected at the point of
//! occurrence, it propagates up the lexer/parser call chain as a typed
//! value, and the driver around the library decides how to report it.
//! Token payloads inside errors are carried as already-rendered
//! description text (see `tokens::tok_text`).

use vstd::prelude::*;

verus! {

/// What went wrong, with the offending text where there is any.
#[allow(non_camel_case_types)]
#[derive(Debug)]
pub enum ErrorKind {
    /// Lexical: a character no token can start with.
    UnknownChar(char),
    /// Lexical: a `:` not followed by a second `:`.
    LoneColon,
    /// Lexical: a string literal with no closing quote.
    UnterminatedString,
    /// Lexical: a numeric literal that is malformed or overflows `i32`.
    MalformedNumber(String),
    /// Syntax: a required token (description) was not the one found.
    Expected { expected: String, got: String },
    /// Syntax: token (description) that no top-level construct starts with.
    UnexpectedGlobal(String),
    /// Syntax: `c_comp_append` argument is not a string literal.
    CCompAppendArg(String),
    /// Syntax: a function's declared return type is neither `void` nor `int`.
    UnknownReturnType(String),
    /// Semantic: `main` declared with return type `void`.
    MainMustReturnInt,
    /// Semantic: a function body with no terminal `return`.
    MissingReturn,
    /// Syntax: end of input where a statement or `}` was required.
    UnexpectedEof,
    /// Syntax: an identifier statement followed by neither `=` nor `(`.
    ExpectedEqOrParen(String),
    /// Syntax: a token (description) that no statement starts with.
    UnexpectedInFunction(String),
    /// Syntax: the builtin call's argument is not a numeric literal.
    ExpectedNumberValue(String),
    /// Semantic: a call to a name that is not a known builtin.
    UnknownFunction(String),
    /// Semantic: a variable read or reassigned before any `let` declares it.
    UndeclaredVariable(String),
    /// Syntax: the right-hand side of `let` or `=` is not acceptable.
    ExpectedNumberOrIdent(String),
    /// Semantic: an `int` function returning a non-`int` variable.
    NonIntReturn(String),
    /// Semantic: a statement between a `return` and the closing `}`.
    StatementAfterReturn,
}

/// The spec-level value of an error kind.
#[allow(non_camel_case_types)]
pub enum ErrorKindV {
    UnknownChar(char),
    LoneColon,
    UnterminatedString,
    MalformedNumber(Seq<char>),
    Expected { expected: Seq<char>, got: Seq<char> },
    UnexpectedGlobal(Seq<char>),
    CCompAppendArg(Seq<char>),
    UnknownReturnType(Seq<char>),
    MainMustReturnInt,
    MissingReturn,
    UnexpectedEof,
    ExpectedEqOrParen(Seq<char>),
    UnexpectedInFunction(Seq<char>),
    ExpectedNumberValue(Seq<char>),
    UnknownFunction(Seq<char>),
    UndeclaredVariable(Seq<char>),
    ExpectedNumberOrIdent(Seq<char>),
    NonIntReturn(Seq<char>),
    StatementAfterReturn,
}

impl View for ErrorKind {
    type V = ErrorKindV;

    open spec fn view(&self) -> ErrorKindV {
        match self {
            ErrorKind::UnknownChar(c) => ErrorKindV::UnknownChar(*c),
            ErrorKind::LoneColon => ErrorKindV::LoneColon,
            ErrorKind::UnterminatedString => ErrorKindV::UnterminatedString,
            ErrorKind::MalformedNumber(s) => ErrorKindV::MalformedNumber(s@),
            ErrorKind::Expected { expected, got } => ErrorKindV::Expected {
                expected: expected@,
                got: got@,
            },
            ErrorKind::UnexpectedGlobal(s) => ErrorKindV::UnexpectedGlobal(s@),
            ErrorKind::CCompAppendArg(s) => ErrorKindV::CCompAppendArg(s@),
            ErrorKind::UnknownReturnType(s) => ErrorKindV::UnknownReturnType(s@),
            ErrorKind::MainMustReturnInt => ErrorKindV::MainMustReturnInt,
            ErrorKind::MissingReturn => ErrorKindV::MissingReturn,
            ErrorKind::UnexpectedEof => ErrorKindV::UnexpectedEof,
            ErrorKind::ExpectedEqOrParen(s) => ErrorKindV::ExpectedEqOrParen(s@),
            ErrorKind::UnexpectedInFunction(s) => ErrorKindV::UnexpectedInFunction(s@),
            ErrorKind::ExpectedNumberValue(s) => ErrorKindV::ExpectedNumberValue(s@),
            ErrorKind::UnknownFunction(s) => ErrorKindV::UnknownFunction(s@),
            ErrorKind::UndeclaredVariable(s) => ErrorKindV::UndeclaredVariable(s@),
            ErrorKind::ExpectedNumberOrIdent(s) => ErrorKindV::ExpectedNumberOrIdent(s@),
            ErrorKind::NonIntReturn(s) => ErrorKindV::NonIntReturn(s@),
            ErrorKind::StatementAfterReturn => ErrorKindV::StatementAfterReturn,
        }
    }
}

/// A fatal compilation error: what happened and on which source line.
#[derive(Debug)]
pub struct CompileError {
    pub line: usize,
    pub kind: ErrorKind,
}

} // verus!
