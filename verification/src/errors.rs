//! The error kinds of the pipeline. Each is terminal for the call that
//! raised it: the caller receives a typed failure and no partial result.

use vstd::prelude::*;
use crate::token::TokenType;

verus! {

/// A failure of the scanner.
#[derive(Debug, Clone, Copy, PartialEq, Eq, Structural)]
pub enum ScanError {
    /// A character that no scanner state accepts.
    InvalidCharacter,
    /// A string still open when a `;` or the end of the input arrives.
    UnterminatedString,
    /// A decimal point not followed by a digit.
    InvalidFloat,
    /// A `&` or `|` not followed by a second one.
    InvalidOperator,
}

/// What went wrong while parsing.
#[derive(Debug, Clone, Copy, PartialEq, Eq, Structural)]
pub enum SyntaxErrorKind {
    /// A primary expression was expected and the token at hand is not one.
    UnexpectedToken,
    /// A grouping was opened and its `)` never came.
    MissingClosingParen,
    /// A complete expression was parsed and tokens remain.
    TrailingTokens,
    /// The token sequence ended where a token was required.
    UnexpectedEnd,
    /// A number lexeme that does not denote a value: malformed, or too
    /// large for the 64-bit integer model.
    InvalidNumber,
    /// An identifier with no meaning in an expression (only `true` and
    /// `false` denote literal values).
    UnknownIdentifier,
}

/// A failure of the parser, reporting the offending token kind and the line
/// it stood on. `token` is `None` when the input ended too early.
#[derive(Debug, Clone, Copy, PartialEq, Eq, Structural)]
pub struct SyntaxError {
    pub kind: SyntaxErrorKind,
    pub token: Option<TokenType>,
    pub line: u32,
}

/// A failure of evaluation.
#[derive(Debug, Clone, Copy, PartialEq, Eq, Structural)]
pub enum EvalError {
    /// An operator applied to literal tags it is not defined for.
    TypeError,
    /// An operator token kind that is not in the recognized set for its
    /// position in the tree, named by its kind.
    EvaluationError(TokenType),
    /// An arithmetic result outside the range of the value model.
    Overflow,
    /// A division whose right operand is zero.
    DivisionByZero,
}

/// Any failure of the scan -> parse -> evaluate pipeline.
#[derive(Debug, Clone, Copy, PartialEq, Eq, Structural)]
pub enum InterpretError {
    Scan(ScanError),
    Syntax(SyntaxError),
    Eval(EvalError),
}

} // verus!
